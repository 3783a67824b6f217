//! Data-level validation of the main configuration file: the credentials that
//! the docker settings and the services name must be defined.

use vstd::prelude::*;
use vstd::string::*;
use crate::models::{Config, Service, Job, CacheRestore};
use crate::strutil::{to_owned_string, strs_view, strip_prefix, is_prefix};
use crate::providers::circleci::convert::contains_string;
use super::error::{DataValidationError, quoted_names, quote_names, names_or_none, names_or_none_text};
use super::service_validator::{ServiceValidator, services_result};
use crate::providers::circleci::convert::restored_cache_name;
use super::spanned_yaml::{parse_spanned, spanned_parse};
use super::span_finder::{SpanFinder, SpanInfo, SpannedYaml, find_path, span_of, spec_cache_reference_span};
use super::reference_validator::{entry_keys, entry_names, opt_entry_keys, opt_entry_names};

verus! {

broadcast use vstd::string::group_string_axioms;

/// Validates the references of one configuration file.
pub struct DataValidator {
    pub file_content: String,
    pub file_path: String,
}

/// Why a configuration file was refused at the data level.
pub enum DataError {
    /// The file could not be parsed with positions.
    SpanParse(String),
    /// The file could not be read as a configuration.
    ConfigParse(String),
    /// The file could not be read as a job.
    JobParse(String),
    /// The file refers to a credential that is not defined.
    Reference(DataValidationError),
}

/// The span of the value at a path of keys.
pub open spec fn field_span(root: SpannedYaml, path: Seq<Seq<char>>) -> Option<SpanInfo> {
    match find_path(root, path) {
        Some(v) => Some(span_of(v)),
        None => None,
    }
}

/// The names of the docker credentials, when there are any.
pub open spec fn auth_names(config: Config) -> Option<Seq<Seq<char>>> {
    match config.docker {
        Some(d) => match d.auth {
            Some(a) => Some(entry_keys(a@)),
            None => None,
        },
        None => None,
    }
}

/// The undefined default credential and where it is, when it can be found in the file.
pub open spec fn default_auth_problem(config: Config, root: SpannedYaml) -> Option<(Seq<char>, SpanInfo)> {
    match (config.docker, auth_names(config)) {
        (Some(d), Some(names)) => match d.default_auth {
            Some(da) => if !names.contains(da@) && field_span(root, seq!["docker"@, "default_auth"@]) is Some {
                Some((da@, field_span(root, seq!["docker"@, "default_auth"@])->0))
            } else {
                None
            },
            None => None,
        },
        _ => None,
    }
}

/// The first service, from index `k` on, whose credential is not defined and
/// whose `auth` entry can be found in the file: its name, the credential, and where.
pub open spec fn first_service_auth_problem(services: Seq<(String, Service)>, names: Seq<Seq<char>>, root: SpannedYaml, k: int) -> Option<(Seq<char>, Seq<char>, SpanInfo)>
    decreases services.len() - k,
{
    if k < 0 || k >= services.len() {
        None
    } else {
        let name = services[k].0@;
        let path = seq!["services"@, name, "auth"@];
        match services[k].1.auth {
            Some(a) => if !names.contains(a@) && field_span(root, path) is Some {
                Some((name, a@, field_span(root, path)->0))
            } else {
                first_service_auth_problem(services, names, root, k + 1)
            },
            None => first_service_auth_problem(services, names, root, k + 1),
        }
    }
}

/// The service credential problem of a configuration, if any.
pub open spec fn service_auth_problem(config: Config, root: SpannedYaml) -> Option<(Seq<char>, Seq<char>, SpanInfo)> {
    match (config.services, auth_names(config)) {
        (Some(services), Some(names)) => first_service_auth_problem(services@, names, root, 0),
        _ => None,
    }
}

/// The message for an undefined default credential.
pub open spec fn unknown_default_auth_message(auth: Seq<char>, names: Seq<Seq<char>>) -> Seq<char> {
    "Unknown docker auth '"@ + auth + "'. Available auth configurations: "@ + quoted_names(names)
}

/// The message for an undefined service credential.
pub open spec fn unknown_service_auth_message(auth: Seq<char>, service: Seq<char>, names: Seq<Seq<char>>) -> Seq<char> {
    "Unknown docker auth '"@ + auth + "' for service '"@ + service + "'. Available auth configurations: "@ + quoted_names(names)
}

/// What checking the credential references of a configuration gives: the
/// default credential first, then each service in order.
pub open spec fn config_references_result(r: Result<(), DataValidationError>, config: Config, file_path: Seq<char>, content: Seq<char>, root: SpannedYaml) -> bool {
    match default_auth_problem(config, root) {
        Some((da, span)) => r matches Err(e) && e.span == span && e.content@ == content
            && e.file_path@ == " "@ + file_path
            && e.message@ == unknown_default_auth_message(da, auth_names(config)->0),
        None => match service_auth_problem(config, root) {
            Some((service, auth, span)) => r matches Err(e) && e.span == span && e.content@ == content
                && e.file_path@ == " "@ + file_path
                && e.message@ == unknown_service_auth_message(auth, service, auth_names(config)->0),
            None => r is Ok,
        },
    }
}

/// The first restored cache, from index `k` on, that is not defined and
/// whose reference can be found in the file: its name and where.
pub open spec fn first_reported_cache_ref(defined: Seq<Seq<char>>, restores: Seq<CacheRestore>, root: SpannedYaml, k: int) -> Option<(Seq<char>, SpanInfo)>
    decreases restores.len() - k,
{
    if k < 0 || k >= restores.len() {
        None
    } else if !defined.contains(restored_cache_name(restores[k])) && spec_cache_reference_span(root, restored_cache_name(restores[k])) is Some {
        Some((restored_cache_name(restores[k]), spec_cache_reference_span(root, restored_cache_name(restores[k]))->0))
    } else {
        first_reported_cache_ref(defined, restores, root, k + 1)
    }
}

/// The group named by the first `@group` entry, from index `k` on, that is
/// not defined.
pub open spec fn first_unknown_group(groups: Seq<Seq<char>>, entries: Seq<Seq<char>>, k: int) -> Option<Seq<char>>
    decreases entries.len() - k,
{
    if k < 0 || k >= entries.len() {
        None
    } else if is_prefix("@"@, entries[k]) && !groups.contains(entries[k].subrange(1, entries[k].len() as int)) {
        Some(entries[k].subrange(1, entries[k].len() as int))
    } else {
        first_unknown_group(groups, entries, k + 1)
    }
}

/// The message for a restored cache that is not defined.
pub open spec fn unknown_cache_backend_message(name: Seq<char>, defined: Seq<Seq<char>>) -> Seq<char> {
    "Unknown cache '"@ + name + "'. Available cache backends: "@ + names_or_none(defined)
}

/// The message for a source file group that is not defined.
pub open spec fn unknown_group_message(group: Seq<char>, groups: Seq<Seq<char>>) -> Seq<char> {
    "Unknown source file group '"@ + group + "'. Available groups: "@ + names_or_none(groups)
}

/// What checking the references of a job file gives, against the services,
/// cache definitions and source file groups of the configuration: first the
/// services (the first unknown one whose item is found), then the restored
/// caches (the first unknown one whose reference is found), then the first
/// unknown `@group` entry, reported at the `source_files` field when it is
/// found.
pub open spec fn job_references_result(r: Result<(), DataValidationError>, config: Config, job: Job, file_path: Seq<char>, content: Seq<char>, root: SpannedYaml) -> bool {
    let services = opt_entry_keys(config.services);
    let caches = opt_entry_keys(config.cache_definitions);
    let groups = opt_entry_keys(config.source_file_groups);
    let error_at = |span: SpanInfo, message: Seq<char>| r matches Err(e) && e.span == span && e.content@ == content
        && e.file_path@ == " "@ + file_path && e.message@ == message;
    if !services_result(Ok(()), services, job, file_path, content, root) {
        r matches Err(d) && services_result(Err(d), services, job, file_path, content, root)
    } else {
        match (match job.restore_cache { Some(rs) => first_reported_cache_ref(caches, rs@, root, 0), None => None }) {
            Some((name, span)) => error_at(span, unknown_cache_backend_message(name, caches)),
            None => match (job.source_files, field_span(root, seq!["source_files"@])) {
                (Some(sf), Some(span)) => match first_unknown_group(groups, strs_view(sf@), 0) {
                    Some(g) => error_at(span, unknown_group_message(g, groups)),
                    None => r is Ok,
                },
                _ => r is Ok,
            },
        }
    }
}

impl DataValidator {
    /// A validator for the file at `file_path` with text `content`.
    pub fn new(file_path: &str, content: String) -> (r: Self)
        ensures
            r.file_path@ == file_path@,
            r.file_content == content,
    {
        DataValidator { file_content: content, file_path: to_owned_string(file_path) }
    }

    /// Parses the file with positions and takes it parsed as a configuration,
    /// then checks its credential references; gives back the configuration.
    pub fn validate_config_data(&self, config: Result<Config, String>) -> (r: Result<Config, DataError>)
        ensures
            match spanned_parse(self.file_content@) {
                Err(e) => r matches Err(DataError::SpanParse(m)) && m@ == "Failed to parse YAML with spans: "@ + e,
                Ok(root) => match config {
                    Err(e) => r matches Err(DataError::ConfigParse(m)) && m@ == "Failed to parse config: "@ + e@,
                    Ok(c) => match r {
                        Ok(rc) => rc == c && config_references_result(Ok(()), c, self.file_path@, self.file_content@, root),
                        Err(DataError::Reference(d)) => config_references_result(Err(d), c, self.file_path@, self.file_content@, root),
                        Err(_) => false,
                    },
                },
            },
    {
        match parse_spanned(self.file_content.as_str()) {
            Err(e) => {
                let mut m = to_owned_string("Failed to parse YAML with spans: ");
                m.append(e.as_str());
                Err(DataError::SpanParse(m))
            },
            Ok(root) => match config {
                Err(e) => {
                    let mut m = to_owned_string("Failed to parse config: ");
                    m.append(e.as_str());
                    Err(DataError::ConfigParse(m))
                },
                Ok(c) => match self.validate_config_references(&c, &root) {
                    Ok(()) => Ok(c),
                    Err(d) => Err(DataError::Reference(d)),
                },
            },
        }
    }

    /// The text a configuration refused at the data level is reported with:
    /// the file's path between double quotes.
    pub fn refusal_message(&self) -> (r: String)
        ensures
            r@ == "Data validation failed for \""@ + self.file_path@ + "\""@,
    {
        let mut m = to_owned_string("Data validation failed for \"");
        m.append(self.file_path.as_str());
        m.append("\"");
        m
    }

    /// Parses the job file with positions and takes it parsed as a job, then
    /// checks its references; gives back the job.
    pub fn validate_job_data(&self, config: &Config, job: Result<Job, String>) -> (r: Result<Job, DataError>)
        ensures
            match spanned_parse(self.file_content@) {
                Err(e) => r matches Err(DataError::SpanParse(m)) && m@ == "Failed to parse YAML with spans: "@ + e,
                Ok(root) => match job {
                    Err(e) => r matches Err(DataError::JobParse(m)) && m@ == "Failed to parse job: "@ + e@,
                    Ok(j) => match r {
                        Ok(rj) => rj == j && job_references_result(Ok(()), *config, j, self.file_path@, self.file_content@, root),
                        Err(DataError::Reference(d)) => job_references_result(Err(d), *config, j, self.file_path@, self.file_content@, root),
                        Err(_) => false,
                    },
                },
            },
    {
        match parse_spanned(self.file_content.as_str()) {
            Err(e) => {
                let mut m = to_owned_string("Failed to parse YAML with spans: ");
                m.append(e.as_str());
                Err(DataError::SpanParse(m))
            },
            Ok(root) => match job {
                Err(e) => {
                    let mut m = to_owned_string("Failed to parse job: ");
                    m.append(e.as_str());
                    Err(DataError::JobParse(m))
                },
                Ok(j) => match self.validate_job_references(&j, config, &root) {
                    Ok(()) => Ok(j),
                    Err(d) => Err(DataError::Reference(d)),
                },
            },
        }
    }

    /// Checks that the services, restored caches and source file groups a job
    /// names are defined by the configuration; a problem whose place cannot
    /// be found in the file is passed over.
    pub fn validate_job_references(&self, job: &Job, config: &Config, spanned: &SpannedYaml) -> (r: Result<(), DataValidationError>)
        ensures
            job_references_result(r, *config, *job, self.file_path@, self.file_content@, *spanned),
    {
        let finder = SpanFinder::new(spanned);
        let services = opt_entry_names(&config.services);
        let service_check = ServiceValidator::new(&services);
        match service_check.validate_job_services(job, self.file_path.as_str(), self.file_content.as_str(), spanned) {
            Err(d) => { return Err(d); },
            Ok(()) => {},
        }
        let caches = opt_entry_names(&config.cache_definitions);
        let ghost defined = strs_view(caches@);
        match &job.restore_cache {
            Some(rs) => {
                let n = rs.len();
                let mut i: usize = 0;
                while i < n
                    invariant
                        n == rs@.len(),
                        i <= n,
                        defined == strs_view(caches@),
                        defined == opt_entry_keys(config.cache_definitions),
                        finder.root == spanned,
                        job.restore_cache == Some(*rs),
                        services_result(Ok(()), opt_entry_keys(config.services), *job, self.file_path@, self.file_content@, *spanned),
                        first_reported_cache_ref(defined, rs@, *spanned, 0) == first_reported_cache_ref(defined, rs@, *spanned, i as int),
                    decreases n - i,
                {
                    let name: &str = match &rs[i] {
                        CacheRestore::Simple(x) => x.as_str(),
                        CacheRestore::Complex { name, .. } => name.as_str(),
                    };
                    assert(name@ == restored_cache_name(rs@[i as int]));
                    if !contains_string(&caches, name) {
                        match finder.find_cache_reference_span(name) {
                            Some(span) => {
                                let mut m = to_owned_string("Unknown cache '");
                                m.append(name);
                                m.append("'. Available cache backends: ");
                                let list = names_or_none_text(&caches);
                                m.append(list.as_str());
                                return Err(DataValidationError::new(self.file_path.as_str(), to_owned_string(self.file_content.as_str()), span, m));
                            },
                            None => {},
                        }
                    }
                    i = i + 1;
                }
            },
            None => {},
        }
        let groups = opt_entry_names(&config.source_file_groups);
        let ghost avail = strs_view(groups@);
        match &job.source_files {
            Some(sf) => {
                let mut path: Vec<&str> = Vec::new();
                path.push("source_files");
                assert(path@.map_values(|s: &str| s@) =~= seq!["source_files"@]);
                match finder.find_field_span(&path) {
                    Some(span) => {
                        let n = sf.len();
                        let mut i: usize = 0;
                        while i < n
                            invariant
                                n == sf@.len(),
                                i <= n,
                                avail == strs_view(groups@),
                                avail == opt_entry_keys(config.source_file_groups),
                                job.source_files == Some(*sf),
                                field_span(*spanned, seq!["source_files"@]) == Some(span),
                                services_result(Ok(()), opt_entry_keys(config.services), *job, self.file_path@, self.file_content@, *spanned),
                                (match job.restore_cache { Some(rs) => first_reported_cache_ref(opt_entry_keys(config.cache_definitions), rs@, *spanned, 0), None => None }) is None,
                                first_unknown_group(avail, strs_view(sf@), 0) == first_unknown_group(avail, strs_view(sf@), i as int),
                            decreases n - i,
                        {
                            proof { reveal_strlit("@"); }
                            assert(strs_view(sf@)[i as int] == sf@[i as int]@);
                            match strip_prefix(sf[i].as_str(), "@") {
                                Some(g) => {
                                    if !contains_string(&groups, g) {
                                        let mut m = to_owned_string("Unknown source file group '");
                                        m.append(g);
                                        m.append("'. Available groups: ");
                                        let list = names_or_none_text(&groups);
                                        m.append(list.as_str());
                                        return Err(DataValidationError::new(self.file_path.as_str(), to_owned_string(self.file_content.as_str()), span, m));
                                    }
                                },
                                None => {},
                            }
                            i = i + 1;
                        }
                    },
                    None => {},
                }
            },
            None => {},
        }
        Ok(())
    }

    /// Checks that the default docker credential and the credential of each
    /// service are defined; a problem whose place cannot be found in the file
    /// is passed over.
    pub fn validate_config_references(&self, config: &Config, spanned: &SpannedYaml) -> (r: Result<(), DataValidationError>)
        ensures
            config_references_result(r, *config, self.file_path@, self.file_content@, *spanned),
    {
        let finder = SpanFinder::new(spanned);
        let docker = match &config.docker {
            Some(d) => d,
            None => { return Ok(()); },
        };
        let auth = match &docker.auth {
            Some(a) => a,
            None => { return Ok(()); },
        };
        let names = entry_names(auth);
        match &docker.default_auth {
            Some(da) => {
                if !contains_string(&names, da.as_str()) {
                    let mut path: Vec<&str> = Vec::new();
                    path.push("docker");
                    path.push("default_auth");
                    assert(path@.map_values(|s: &str| s@) =~= seq!["docker"@, "default_auth"@]);
                    match finder.find_field_span(&path) {
                        Some(span) => {
                            let mut m = to_owned_string("Unknown docker auth '");
                            m.append(da.as_str());
                            m.append("'. Available auth configurations: ");
                            let list = quote_names(&names);
                            m.append(list.as_str());
                            return Err(DataValidationError::new(self.file_path.as_str(), to_owned_string(self.file_content.as_str()), span, m));
                        },
                        None => {},
                    }
                }
            },
            None => {},
        }
        assert(default_auth_problem(*config, *spanned) is None);
        match &config.services {
            Some(services) => self.check_service_auth(services, &names, &finder, config),
            None => Ok(()),
        }
    }

    /// The service part of `validate_config_references`.
    fn check_service_auth(&self, services: &Vec<(String, Service)>, names: &Vec<String>, finder: &SpanFinder, config: &Config) -> (r: Result<(), DataValidationError>)
        requires
            config.services == Some(*services),
            auth_names(*config) == Some(strs_view(names@)),
            default_auth_problem(*config, *finder.root) is None,
        ensures
            config_references_result(r, *config, self.file_path@, self.file_content@, *finder.root),
    {
        let n = services.len();
        let mut i: usize = 0;
        while i < n
            invariant
                n == services@.len(),
                i <= n,
                config.services == Some(*services),
                auth_names(*config) == Some(strs_view(names@)),
                default_auth_problem(*config, *finder.root) is None,
                first_service_auth_problem(services@, strs_view(names@), *finder.root, i as int)
                    == first_service_auth_problem(services@, strs_view(names@), *finder.root, 0),
            decreases n - i,
        {
            let name = services[i].0.as_str();
            match &services[i].1.auth {
                Some(a) => {
                    if !contains_string(names, a.as_str()) {
                        let mut path: Vec<&str> = Vec::new();
                        path.push("services");
                        path.push(name);
                        path.push("auth");
                        assert(path@.map_values(|s: &str| s@) =~= seq!["services"@, name@, "auth"@]);
                        match finder.find_field_span(&path) {
                            Some(span) => {
                                assert(services@[i as int].0@ == name@);
                                assert(field_span(*finder.root, seq!["services"@, name@, "auth"@]) == Some(span));
                                assert(first_service_auth_problem(services@, strs_view(names@), *finder.root, i as int) == Some((name@, a@, span)));
                                let mut m = to_owned_string("Unknown docker auth '");
                                m.append(a.as_str());
                                m.append("' for service '");
                                m.append(name);
                                m.append("'. Available auth configurations: ");
                                let list = quote_names(names);
                                m.append(list.as_str());
                                return Err(DataValidationError::new(self.file_path.as_str(), to_owned_string(self.file_content.as_str()), span, m));
                            },
                            None => {},
                        }
                    }
                },
                None => {},
            }
            i = i + 1;
        }
        Ok(())
    }
}

} // verus!
