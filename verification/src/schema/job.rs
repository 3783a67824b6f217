//! Job definitions of `cigen.yml`, and how `packages` and `source_files` are read.

use vstd::prelude::*;
use crate::strutil::{str_eq, to_owned_string, opt_str_view};
use crate::yaml::{YamlValue, YamlView, key_is, spec_get, spec_as_str, yaml_view, views_of, lemma_views_of, entry_views_of, lemma_entry_views_of};
use super::step::{Artifact, Step};

verus! {

broadcast use vstd::string::group_string_axioms;

/// A package requirement of a job.
#[derive(Debug, PartialEq)]
pub struct PackageSpec {
    /// Logical package name (e.g. ruby, node).
    pub name: String,
    /// Package manager override.
    pub manager: Option<String>,
    /// Directory to install or use the package manager from.
    pub path: Option<String>,
    /// Explicit version requirement.
    pub version: Option<String>,
    /// Any other keys, in order.
    pub extra: Vec<(String, YamlValue)>,
}

impl PackageSpec {
    /// A package given by name only.
    pub fn from_name(name: String) -> (r: Self)
        ensures
            r.name@ == name@,
            r.manager is None,
            r.path is None,
            r.version is None,
            r.extra@.len() == 0,
    {
        PackageSpec { name, manager: None, path: None, version: None, extra: Vec::new() }
    }
}

/// A job definition.
#[derive(Debug, PartialEq)]
pub struct Job {
    /// Jobs this job depends on.
    pub needs: Vec<String>,
    pub matrix: Option<JobMatrix>,
    pub packages: Vec<PackageSpec>,
    pub services: Vec<String>,
    /// Environment variables, in order.
    pub environment: Vec<(String, String)>,
    /// Overrides of the automatic checkout step.
    pub checkout: Option<Vec<(String, YamlValue)>>,
    pub steps: Vec<Step>,
    /// Source files whose changes trigger the job.
    pub source_files: Vec<String>,
    pub skip_if: Option<SkipConditions>,
    pub trigger: Option<JobTrigger>,
    /// Docker image or runner class.
    pub image: String,
    /// Runner class (deprecated, use image).
    pub runner: Option<String>,
    pub artifacts: Vec<Artifact>,
    /// Any other keys, in order.
    pub extra: Vec<(String, YamlValue)>,
    /// Workflow of the job (set by the loader).
    pub workflow: Option<String>,
    /// Stage of the job (set by the loader).
    pub stage: Option<String>,
}

/// The image a job runs on when none is given: `ubuntu-latest`.
pub fn default_image() -> (r: String)
    ensures
        r@ == "ubuntu-latest"@,
{
    to_owned_string("ubuntu-latest")
}

impl Job {
    /// A job with every field at its default: nothing needed, no steps, and the default image.
    pub fn default() -> (r: Self)
        ensures
            r.needs@.len() == 0 && r.matrix is None && r.packages@.len() == 0 && r.services@.len() == 0,
            r.environment@.len() == 0 && r.checkout is None && r.steps@.len() == 0 && r.source_files@.len() == 0,
            r.skip_if is None && r.trigger is None && r.image@ == "ubuntu-latest"@ && r.runner is None,
            r.artifacts@.len() == 0 && r.extra@.len() == 0 && r.workflow is None && r.stage is None,
    {
        Job {
            needs: Vec::new(),
            matrix: None,
            packages: Vec::new(),
            services: Vec::new(),
            environment: Vec::new(),
            checkout: None,
            steps: Vec::new(),
            source_files: Vec::new(),
            skip_if: None,
            trigger: None,
            image: default_image(),
            runner: None,
            artifacts: Vec::new(),
            extra: Vec::new(),
            workflow: None,
            stage: None,
        }
    }
}

/// Matrix configuration.
#[derive(Debug, Clone, PartialEq)]
pub enum JobMatrix {
    /// Cartesian dimensions: `{ key: [v1, v2] }`.
    Dimensions(Vec<(String, Vec<String>)>),
    /// Explicit rows: `[ { key: v1 }, { key: v2 } ]`.
    Explicit(Vec<Vec<(String, String)>>),
}

/// A matrix dimension (a list of values).
#[derive(Debug, Clone, PartialEq)]
pub enum MatrixDimension {
    List(Vec<String>),
}

/// Conditions under which a job is skipped.
#[derive(Debug, Clone, PartialEq)]
pub struct SkipConditions {
    /// Skip if these file patterns are unchanged.
    pub paths_unmodified: Vec<String>,
    /// Skip if these environment variables are set.
    pub env: Vec<String>,
    /// Skip on these branch patterns.
    pub branch: Vec<String>,
}

/// Trigger of a job.
#[derive(Debug, Clone, PartialEq)]
pub enum JobTrigger {
    Simple(SimpleTrigger),
    Complex(ComplexTrigger),
}

/// Simple trigger types.
#[derive(Debug, Clone, Copy, PartialEq, Eq, Structural)]
pub enum SimpleTrigger {
    /// Manual dispatch.
    Manual,
    /// Scheduled (cron).
    Scheduled,
}

/// A trigger with tag and branch patterns.
#[derive(Debug, Clone, PartialEq)]
pub struct ComplexTrigger {
    pub tags: Option<String>,
    pub branches: Option<String>,
}

/// Why a `packages` or `source_files` value could not be read.
#[derive(Debug, Clone, Copy, PartialEq, Eq, Structural)]
pub enum PackagesError {
    /// The value is neither absent, null, a string, a sequence nor a mapping.
    UnsupportedFormat,
    /// A package entry is not a string nor a mapping with a string `name`,
    /// string or null `manager`/`path`/`version`, and string keys.
    InvalidPackage,
    /// `source_files` is neither a string nor a sequence of strings.
    InvalidSourceFiles,
}

/// Keys of a package mapping that are fields of `PackageSpec`.
pub open spec fn is_package_field(k: YamlView) -> bool {
    key_is(k, "name"@) || key_is(k, "manager"@) || key_is(k, "path"@) || key_is(k, "version"@)
}

/// An optional string field: absent, null or a string.
pub open spec fn optional_str_ok(v: Option<YamlView>) -> bool {
    match v {
        None => true,
        Some(YamlView::Null) => true,
        Some(YamlView::Str(_)) => true,
        _ => false,
    }
}

/// The string of an optional string field.
pub open spec fn optional_str(v: Option<YamlView>) -> Option<Seq<char>> {
    match v {
        Some(YamlView::Str(s)) => Some(s),
        _ => None,
    }
}

/// Every key of the entries is a string.
pub open spec fn all_keys_str(e: Seq<(YamlView, YamlView)>) -> bool {
    forall|i: int| 0 <= i < e.len() ==> #[trigger] e[i].0 is Str
}

/// Whether a value can be read as a package.
pub open spec fn package_value_ok(v: YamlView) -> bool {
    match v {
        YamlView::Str(_) => true,
        YamlView::Mapping(e) => {
            &&& all_keys_str(e)
            &&& spec_get(v, "name"@) matches Some(YamlView::Str(_))
            &&& optional_str_ok(spec_get(v, "manager"@))
            &&& optional_str_ok(spec_get(v, "path"@))
            &&& optional_str_ok(spec_get(v, "version"@))
        },
        _ => false,
    }
}

/// The entries of a package mapping that are not fields of `PackageSpec`, in order.
pub open spec fn package_extra(e: Seq<(YamlView, YamlView)>) -> Seq<(YamlView, YamlView)> {
    e.filter(|x: (YamlView, YamlView)| !is_package_field(x.0))
}

/// The view of a `(String, YamlValue)` list.
pub open spec fn named_values_view(s: Seq<(String, YamlValue)>) -> Seq<(YamlView, YamlView)> {
    s.map_values(|x: (String, YamlValue)| (YamlView::Str(x.0@), x.1@))
}

/// What reading `v` as a package gives, when `package_value_ok(v)`.
pub open spec fn package_matches(p: PackageSpec, v: YamlView) -> bool {
    match v {
        YamlView::Str(s) => p.name@ == s && p.manager is None && p.path is None && p.version is None && p.extra@.len() == 0,
        YamlView::Mapping(e) => {
            &&& spec_get(v, "name"@) == Some(YamlView::Str(p.name@))
            &&& opt_str_view(p.manager) == optional_str(spec_get(v, "manager"@))
            &&& opt_str_view(p.path) == optional_str(spec_get(v, "path"@))
            &&& opt_str_view(p.version) == optional_str(spec_get(v, "version"@))
            &&& named_values_view(p.extra@) == package_extra(e)
        },
        _ => false,
    }
}

fn optional_str_field(v: &YamlValue, key: &str) -> (r: Result<Option<String>, PackagesError>)
    ensures
        r is Ok <==> optional_str_ok(spec_get(v@, key@)),
        r matches Ok(o) ==> opt_str_view(o) == optional_str(spec_get(v@, key@)),
        r matches Err(e) ==> e == PackagesError::InvalidPackage,
{
    match v.get(key) {
        None => Ok(None),
        Some(YamlValue::Null) => Ok(None),
        Some(YamlValue::Str(s)) => Ok(Some(to_owned_string(s.as_str()))),
        Some(_) => Err(PackagesError::InvalidPackage),
    }
}

fn is_package_field_key(k: &YamlValue) -> (r: bool)
    ensures
        r == is_package_field(k@),
{
    proof {
        reveal_strlit("name");
        reveal_strlit("manager");
        reveal_strlit("path");
        reveal_strlit("version");
    }
    match k {
        YamlValue::Str(s) => str_eq(s.as_str(), "name") || str_eq(s.as_str(), "manager")
            || str_eq(s.as_str(), "path") || str_eq(s.as_str(), "version"),
        _ => false,
    }
}

/// Reads one package entry: a name, or a mapping with a `name` and optional fields.
pub fn package_from_value(v: &YamlValue) -> (r: Result<PackageSpec, PackagesError>)
    ensures
        r is Ok <==> package_value_ok(v@),
        r matches Ok(p) ==> package_matches(p, v@),
        r matches Err(e) ==> e == PackagesError::InvalidPackage,
{
    match v {
        YamlValue::Str(s) => Ok(PackageSpec::from_name(to_owned_string(s.as_str()))),
        YamlValue::Mapping(entries) => {
            proof { lemma_entry_views_of(entries@); }
            let ghost ev = entry_views_of(entries@);
            let n = entries.len();
            let mut extra: Vec<(String, YamlValue)> = Vec::new();
            let mut i: usize = 0;
            while i < n
                invariant
                    n == entries@.len(),
                    i <= n,
                    ev == entry_views_of(entries@),
                    ev.len() == n,
                    *v == YamlValue::Mapping(*entries),
                    forall|j: int| 0 <= j < n ==> #[trigger] ev[j] == (yaml_view(entries@[j].0), yaml_view(entries@[j].1)),
                    forall|j: int| 0 <= j < i ==> #[trigger] ev[j].0 is Str,
                    named_values_view(extra@) == package_extra(ev.subrange(0, i as int)),
                decreases n - i,
            {
                let k = &entries[i].0;
                proof {
                    assert(ev.subrange(0, i + 1 as int).drop_last() =~= ev.subrange(0, i as int));
                    reveal(Seq::filter);
                }
                match k {
                    YamlValue::Str(s) => {
                        if !is_package_field_key(k) {
                            extra.push((to_owned_string(s.as_str()), entries[i].1.deep_copy()));
                            proof {
                                assert(named_values_view(extra@) =~= named_values_view(extra@.drop_last()).push((YamlView::Str(s@), ev[i as int].1)));
                            }
                        }
                    },
                    _ => {
                        assert(!(ev[i as int].0 is Str));
                        return Err(PackagesError::InvalidPackage);
                    },
                }
                i = i + 1;
            }
            assert(ev.subrange(0, n as int) =~= ev);
            let name = match v.get("name") {
                Some(YamlValue::Str(s)) => to_owned_string(s.as_str()),
                _ => {
                    return Err(PackagesError::InvalidPackage);
                },
            };
            let manager = optional_str_field(v, "manager")?;
            let path = optional_str_field(v, "path")?;
            let version = optional_str_field(v, "version")?;
            Ok(PackageSpec { name, manager, path, version, extra })
        },
        _ => Err(PackagesError::InvalidPackage),
    }
}

/// Every value can be read as a package.
pub open spec fn all_package_values_ok(items: Seq<YamlView>) -> bool {
    forall|i: int| 0 <= i < items.len() ==> package_value_ok(#[trigger] items[i])
}

/// Every value is a string.
pub open spec fn all_str(items: Seq<YamlView>) -> bool {
    forall|i: int| 0 <= i < items.len() ==> #[trigger] items[i] is Str
}

/// Whether a `packages` value (absent when `None`) can be read.
pub open spec fn packages_value_ok(v: Option<YamlView>) -> bool {
    match v {
        None => true,
        Some(YamlView::Null) => true,
        Some(YamlView::Str(_)) => true,
        Some(YamlView::Sequence(items)) => all_package_values_ok(items),
        Some(YamlView::Mapping(e)) => package_value_ok(YamlView::Mapping(e)),
        _ => false,
    }
}

/// The package values a `packages` value lists.
pub open spec fn package_values(v: Option<YamlView>) -> Seq<YamlView> {
    match v {
        Some(YamlView::Str(s)) => seq![YamlView::Str(s)],
        Some(YamlView::Sequence(items)) => items,
        Some(YamlView::Mapping(e)) => seq![YamlView::Mapping(e)],
        _ => Seq::empty(),
    }
}

/// Reads the `packages` of a job: absent or null gives none, a string one
/// package, a sequence one package per entry, a mapping one package.
pub fn packages_from_value(v: Option<&YamlValue>) -> (r: Result<Vec<PackageSpec>, PackagesError>)
    ensures
        r is Ok <==> packages_value_ok(match v { Some(x) => Some(x@), None => None }),
        r matches Ok(ps) ==> ps@.len() == package_values(match v { Some(x) => Some(x@), None => None }).len()
            && forall|i: int| 0 <= i < ps@.len() ==> package_matches(#[trigger] ps@[i], package_values(match v { Some(x) => Some(x@), None => None })[i]),
        r == Err::<Vec<PackageSpec>, PackagesError>(PackagesError::UnsupportedFormat) <==> (match v {
            Some(x) => x@ is Bool || x@ is Int || x@ is Real,
            None => false,
        }),
{
    match v {
        None => Ok(Vec::new()),
        Some(YamlValue::Null) => Ok(Vec::new()),
        Some(YamlValue::Str(s)) => {
            let mut out = Vec::new();
            out.push(PackageSpec::from_name(to_owned_string(s.as_str())));
            Ok(out)
        },
        Some(YamlValue::Sequence(items)) => {
            proof { lemma_views_of(items@); }
            let n = items.len();
            let mut out: Vec<PackageSpec> = Vec::new();
            let mut i: usize = 0;
            while i < n
                invariant
                    n == items@.len(),
                    i <= n,
                    out@.len() == i,
                    v matches Some(x) && *x == YamlValue::Sequence(*items),
                    views_of(items@).len() == n,
                    forall|j: int| 0 <= j < n ==> #[trigger] views_of(items@)[j] == yaml_view(items@[j]),
                    forall|j: int| 0 <= j < i ==> package_value_ok(yaml_view(#[trigger] items@[j])),
                    forall|j: int| 0 <= j < i ==> package_matches(#[trigger] out@[j], yaml_view(items@[j])),
                decreases n - i,
            {
                match package_from_value(&items[i]) {
                    Ok(p) => {
                        out.push(p);
                    },
                    Err(_) => {
                        proof {
                            assert(views_of(items@)[i as int] == yaml_view(items@[i as int]));
                            assert(!package_value_ok(views_of(items@)[i as int]));

                        }
                        return Err(PackagesError::InvalidPackage);
                    },
                }
                i = i + 1;
            }
            proof {
                assert forall|j: int| 0 <= j < views_of(items@).len() implies package_value_ok(#[trigger] views_of(items@)[j]) by {
                    assert(views_of(items@)[j] == yaml_view(items@[j]));
                }
            }
            Ok(out)
        },
        Some(YamlValue::Mapping(_)) => {
            let p = package_from_value(v.unwrap());
            match p {
                Ok(p) => {
                    let mut out = Vec::new();
                    out.push(p);
                    Ok(out)
                },
                Err(_) => Err(PackagesError::InvalidPackage),
            }
        },
        Some(_) => Err(PackagesError::UnsupportedFormat),
    }
}

/// Whether a `source_files` value (absent when `None`) can be read.
pub open spec fn source_files_value_ok(v: Option<YamlView>) -> bool {
    match v {
        None => true,
        Some(YamlView::Null) => true,
        Some(YamlView::Str(_)) => true,
        Some(YamlView::Sequence(items)) => all_str(items),
        _ => false,
    }
}

/// The patterns a readable `source_files` value lists.
pub open spec fn source_file_patterns(v: Option<YamlView>) -> Seq<Seq<char>> {
    match v {
        Some(YamlView::Str(s)) => seq![s],
        Some(YamlView::Sequence(items)) => items.map_values(|x: YamlView| spec_as_str(x)->0),
        _ => Seq::empty(),
    }
}

/// Reads the `source_files` of a job: one pattern or a list of patterns.
pub fn source_files_from_value(v: Option<&YamlValue>) -> (r: Result<Vec<String>, PackagesError>)
    ensures
        r is Ok <==> source_files_value_ok(match v { Some(x) => Some(x@), None => None }),
        r matches Ok(ps) ==> ps@.map_values(|s: String| s@) == source_file_patterns(match v { Some(x) => Some(x@), None => None }),
        r matches Err(e) ==> e == PackagesError::InvalidSourceFiles,
{
    match v {
        None => Ok(Vec::new()),
        Some(YamlValue::Null) => Ok(Vec::new()),
        Some(YamlValue::Str(s)) => {
            let mut out = Vec::new();
            out.push(to_owned_string(s.as_str()));
            proof {
                assert(out@.map_values(|s: String| s@) =~= seq![s@]);
            }
            Ok(out)
        },
        Some(YamlValue::Sequence(items)) => {
            proof { lemma_views_of(items@); }
            let n = items.len();
            let mut out: Vec<String> = Vec::new();
            let mut i: usize = 0;
            while i < n
                invariant
                    n == items@.len(),
                    i <= n,
                    out@.len() == i,
                    v matches Some(x) && *x == YamlValue::Sequence(*items),
                    views_of(items@).len() == n,
                    forall|j: int| 0 <= j < n ==> #[trigger] views_of(items@)[j] == yaml_view(items@[j]),
                    forall|j: int| 0 <= j < i ==> yaml_view(#[trigger] items@[j]) is Str,
                    forall|j: int| 0 <= j < i ==> Some(#[trigger] out@[j]@) == spec_as_str(yaml_view(items@[j])),
                decreases n - i,
            {
                match &items[i] {
                    YamlValue::Str(s) => {
                        out.push(to_owned_string(s.as_str()));
                    },
                    _ => {
                        assert(!(views_of(items@)[i as int] is Str));
                        return Err(PackagesError::InvalidSourceFiles);
                    },
                }
                i = i + 1;
            }
            proof {
                assert forall|j: int| 0 <= j < views_of(items@).len() implies #[trigger] views_of(items@)[j] is Str by {
                    assert(views_of(items@)[j] == yaml_view(items@[j]));
                }
                assert(out@.map_values(|s: String| s@) =~= views_of(items@).map_values(|x: YamlView| spec_as_str(x)->0));
            }
            Ok(out)
        },
        Some(_) => Err(PackagesError::InvalidSourceFiles),
    }
}

} // verus!
