//! Template variables and where they come from: the `vars` section, then
//! `CIGEN_VAR_*` environment variables, then command-line variables, each
//! source overriding the ones added before it.

use vstd::prelude::*;
use vstd::string::*;
use crate::models::{pairs_map, unique_keys, map_insert, map_get};
use crate::strutil::{to_owned_string, strip_prefix, is_prefix};
use crate::yaml::{YamlValue, YamlView};

verus! {

broadcast use vstd::string::group_string_axioms;

/// What lowercasing a string gives (Unicode lowercase mapping).
pub uninterp spec fn lowercase(s: Seq<char>) -> Seq<char>;

/// Lowercases a string.
///
/// Trusted: calls `str::to_lowercase`; the result is only named, as `lowercase` of the input.
#[verifier::external_body]
fn to_lowercase(s: &str) -> (r: String)
    ensures
        r@ == lowercase(s@),
{
    s.to_lowercase()
}

/// The variables that templates can use.
pub struct VariableResolver {
    variables: Vec<(String, YamlValue)>,
}

/// The map of a list of named values, each value by its view.
pub open spec fn values_map(s: Seq<(String, YamlValue)>) -> Map<Seq<char>, YamlView> {
    pairs_map(s).map_values(|v: YamlValue| v@)
}

/// The map of a list of named strings, each as a string value.
pub open spec fn strings_map(s: Seq<(String, String)>) -> Map<Seq<char>, YamlView> {
    pairs_map(s).map_values(|v: String| YamlView::Str(v@))
}

/// The environment variables named `CIGEN_VAR_<NAME>` written in turn, each
/// under its lowercased name, as string values.
pub open spec fn env_vars_map(env: Seq<(String, String)>) -> Map<Seq<char>, YamlView>
    decreases env.len(),
{
    if env.len() == 0 {
        Map::empty()
    } else {
        let m = env_vars_map(env.drop_last());
        let (k, v) = env.last();
        if is_prefix("CIGEN_VAR_"@, k@) {
            m.insert(lowercase(k@.subrange(10, k@.len() as int)), YamlView::Str(v@))
        } else {
            m
        }
    }
}

impl VariableResolver {
    /// The variables, by name.
    pub closed spec fn view_map(&self) -> Map<Seq<char>, YamlView> {
        values_map(self.variables@)
    }

    /// The internal list has one entry per name.
    pub closed spec fn wf(&self) -> bool {
        unique_keys(self.variables@)
    }

    /// A resolver without variables.
    pub fn new() -> (r: Self)
        ensures
            r.wf(),
            r.view_map() == Map::<Seq<char>, YamlView>::empty(),
    {
        let r = VariableResolver { variables: Vec::new() };
        assert(values_map(r.variables@) =~= Map::<Seq<char>, YamlView>::empty());
        r
    }

    /// Adds the variables of a `vars` section; they override existing ones.
    pub fn add_vars_section(&mut self, vars: &Vec<(String, YamlValue)>)
        requires
            old(self).wf(),
        ensures
            final(self).wf(),
            final(self).view_map() == old(self).view_map().union_prefer_right(values_map(vars@)),
    {
        let n = vars.len();
        let mut i: usize = 0;
        while i < n
            invariant
                n == vars@.len(),
                i <= n,
                self.wf(),
                self.view_map() == old(self).view_map().union_prefer_right(values_map(vars@.subrange(0, i as int))),
            decreases n - i,
        {
            let ghost before = self.view_map();
            let k = to_owned_string(vars[i].0.as_str());
            let v = vars[i].1.deep_copy();
            let ghost kv = k@;
            let ghost vv = v@;
            map_insert(&mut self.variables, k, v);
            proof {
                let sub = vars@.subrange(0, i + 1);
                assert(sub.drop_last() =~= vars@.subrange(0, i as int));
                assert(values_map(self.variables@) =~= before.insert(kv, vv));
                assert(values_map(sub) =~= values_map(vars@.subrange(0, i as int)).insert(kv, vv));
                assert(self.view_map() =~= old(self).view_map().union_prefer_right(values_map(sub)));
            }
            i = i + 1;
        }
        assert(vars@.subrange(0, n as int) =~= vars@);
    }

    /// Adds the `CIGEN_VAR_<NAME>` environment variables under their lowercased
    /// names; they override existing ones.
    pub fn add_env_vars(&mut self, env_vars: &Vec<(String, String)>)
        requires
            old(self).wf(),
        ensures
            final(self).wf(),
            final(self).view_map() == old(self).view_map().union_prefer_right(env_vars_map(env_vars@)),
    {
        let n = env_vars.len();
        let mut i: usize = 0;
        assert(old(self).view_map().union_prefer_right(env_vars_map(env_vars@.subrange(0, 0))) =~= old(self).view_map());
        while i < n
            invariant
                n == env_vars@.len(),
                i <= n,
                self.wf(),
                self.view_map() == old(self).view_map().union_prefer_right(env_vars_map(env_vars@.subrange(0, i as int))),
            decreases n - i,
        {
            let ghost before = self.view_map();
            proof {
                reveal_strlit("CIGEN_VAR_");
                let sub = env_vars@.subrange(0, i + 1);
                assert(sub.drop_last() =~= env_vars@.subrange(0, i as int));
            }
            match strip_prefix(env_vars[i].0.as_str(), "CIGEN_VAR_") {
                Some(name) => {
                    let k = to_lowercase(name);
                    let v = YamlValue::Str(to_owned_string(env_vars[i].1.as_str()));
                    let ghost kv = k@;
                    let ghost vv = v@;
                    map_insert(&mut self.variables, k, v);
                    proof {
                        assert(values_map(self.variables@) =~= before.insert(kv, vv));
                        assert(self.view_map() =~= old(self).view_map().union_prefer_right(env_vars_map(env_vars@.subrange(0, i + 1))));
                    }
                },
                None => {
                    assert(self.view_map() =~= old(self).view_map().union_prefer_right(env_vars_map(env_vars@.subrange(0, i + 1))));
                },
            }
            i = i + 1;
        }
        assert(env_vars@.subrange(0, n as int) =~= env_vars@);
    }

    /// Adds command-line variables as strings; they override existing ones.
    pub fn add_cli_vars(&mut self, cli_vars: &Vec<(String, String)>)
        requires
            old(self).wf(),
        ensures
            final(self).wf(),
            final(self).view_map() == old(self).view_map().union_prefer_right(strings_map(cli_vars@)),
    {
        let n = cli_vars.len();
        let mut i: usize = 0;
        assert(old(self).view_map().union_prefer_right(strings_map(cli_vars@.subrange(0, 0))) =~= old(self).view_map());
        while i < n
            invariant
                n == cli_vars@.len(),
                i <= n,
                self.wf(),
                self.view_map() == old(self).view_map().union_prefer_right(strings_map(cli_vars@.subrange(0, i as int))),
            decreases n - i,
        {
            let ghost before = self.view_map();
            let k = to_owned_string(cli_vars[i].0.as_str());
            let v = YamlValue::Str(to_owned_string(cli_vars[i].1.as_str()));
            let ghost kv = k@;
            let ghost vv = v@;
            map_insert(&mut self.variables, k, v);
            proof {
                let sub = cli_vars@.subrange(0, i + 1);
                assert(sub.drop_last() =~= cli_vars@.subrange(0, i as int));
                assert(values_map(self.variables@) =~= before.insert(kv, vv));
                assert(strings_map(sub) =~= strings_map(cli_vars@.subrange(0, i as int)).insert(kv, vv));
                assert(self.view_map() =~= old(self).view_map().union_prefer_right(strings_map(sub)));
            }
            i = i + 1;
        }
        assert(cli_vars@.subrange(0, n as int) =~= cli_vars@);
    }

    /// All variables, one entry per name.
    pub fn get_variables(&self) -> (r: &Vec<(String, YamlValue)>)
        requires
            self.wf(),
        ensures
            unique_keys(r@),
            values_map(r@) == self.view_map(),
    {
        &self.variables
    }

    /// The variable called `name`, if any.
    pub fn get_variable(&self, name: &str) -> (r: Option<&YamlValue>)
        requires
            self.wf(),
        ensures
            match r {
                Some(v) => self.view_map().dom().contains(name@) && self.view_map()[name@] == v@,
                None => !self.view_map().dom().contains(name@),
            },
    {
        map_get(&self.variables, name)
    }
}

/// Later sources win: after the `vars` section, the environment and the command
/// line are added, a name given on the command line has its command-line value,
/// and a name given only in the environment has its environment value.
pub proof fn law_variable_precedence(
    start: Map<Seq<char>, YamlView>,
    vars: Seq<(String, YamlValue)>,
    env: Seq<(String, String)>,
    cli: Seq<(String, String)>,
    name: Seq<char>,
)
    ensures
        strings_map(cli).dom().contains(name) ==>
            start.union_prefer_right(values_map(vars)).union_prefer_right(env_vars_map(env)).union_prefer_right(strings_map(cli))[name]
                == strings_map(cli)[name],
        !strings_map(cli).dom().contains(name) && env_vars_map(env).dom().contains(name) ==>
            start.union_prefer_right(values_map(vars)).union_prefer_right(env_vars_map(env)).union_prefer_right(strings_map(cli))[name]
                == env_vars_map(env)[name],
        !strings_map(cli).dom().contains(name) && !env_vars_map(env).dom().contains(name) && values_map(vars).dom().contains(name) ==>
            start.union_prefer_right(values_map(vars)).union_prefer_right(env_vars_map(env)).union_prefer_right(strings_map(cli))[name]
                == values_map(vars)[name],
{
}

} // verus!
