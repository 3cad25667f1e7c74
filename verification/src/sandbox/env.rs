//! Sanitized subprocess environment: an allowlist filter, a fixed `PATH`,
//! and warnings for variables whose names look like secrets.
use vstd::prelude::*;
use vstd::string::StringExecFns;
use crate::text::{chars_of, concat2, contains, find_exec, to_uppercase, uppercase_of};

verus! {

/// The fixed `PATH` value assigned to all subprocesses.
pub const SANITIZED_PATH: &'static str = "/usr/bin:/bin";

/// Name fragments that indicate a variable likely holds a secret.
pub open spec fn secret_patterns() -> Seq<Seq<char>> {
    seq!["_TOKEN"@, "_KEY"@, "_SECRET"@, "_PASSWORD"@]
}

/// Whether an uppercased name contains one of the fragments.
pub open spec fn has_secret_fragment(upper: Seq<char>) -> bool {
    exists|i: int| 0 <= i < secret_patterns().len() && contains(upper, #[trigger] secret_patterns()[i])
}

/// A name matches a secret pattern when its Unicode uppercase form
/// contains one of the fragments.
pub open spec fn is_secret_name(name: Seq<char>) -> bool {
    has_secret_fragment(uppercase_of(name))
}

fn contains_str(s: &[char], p: &str) -> (b: bool)
    ensures
        b == contains(s@, p@),
{
    let pc = chars_of(p);
    find_exec(s, &pc, 0).is_some()
}

/// Whether an already uppercased name contains `_TOKEN`, `_KEY`,
/// `_SECRET` or `_PASSWORD`.
pub fn upper_has_secret_fragment(upper: &str) -> (r: bool)
    ensures
        r == has_secret_fragment(upper@),
{
    let u = chars_of(upper);
    let r = contains_str(&u, "_TOKEN") || contains_str(&u, "_KEY") || contains_str(&u, "_SECRET")
        || contains_str(&u, "_PASSWORD");
    proof {
        if r {
            if contains(u@, "_TOKEN"@) { assert(secret_patterns()[0] == "_TOKEN"@); }
            else if contains(u@, "_KEY"@) { assert(secret_patterns()[1] == "_KEY"@); }
            else if contains(u@, "_SECRET"@) { assert(secret_patterns()[2] == "_SECRET"@); }
            else { assert(secret_patterns()[3] == "_PASSWORD"@); }
        }
    }
    r
}

/// Checks whether a variable name matches a known secret pattern (case-insensitive).
pub fn is_secret_pattern(name: &str) -> (r: bool)
    ensures
        r == is_secret_name(name@),
{
    let upper = to_uppercase(name);
    upper_has_secret_fragment(upper.as_str())
}

/// The warning recorded for a secret-looking variable that passes the filter.
pub open spec fn secret_warning(name: Seq<char>) -> Seq<char> {
    "Secret-pattern env var passed to subprocess: "@ + name
}

/// Whether `name` is one of `allowed`.
pub open spec fn name_listed(allowed: Seq<String>, name: Seq<char>) -> bool {
    exists|i: int| 0 <= i < allowed.len() && (#[trigger] allowed[i])@ == name
}

/// The variables `build_env` keeps from `vars`, in order (`PATH` is set apart).
pub open spec fn kept_vars(vars: Seq<(String, String)>, allowed: Seq<String>) -> Seq<(String, String)>
    decreases vars.len(),
{
    if vars.len() == 0 {
        Seq::empty()
    } else {
        let rest = kept_vars(vars.drop_last(), allowed);
        let (k, v) = vars.last();
        if name_listed(allowed, k@) && k@ != "PATH"@ {
            rest.push((k, v))
        } else {
            rest
        }
    }
}

/// The warnings `build_env` records for `vars`, in order.
pub open spec fn env_warnings(vars: Seq<(String, String)>, allowed: Seq<String>) -> Seq<Seq<char>>
    decreases vars.len(),
{
    if vars.len() == 0 {
        Seq::empty()
    } else {
        let rest = env_warnings(vars.drop_last(), allowed);
        let k = vars.last().0;
        if name_listed(allowed, k@) && is_secret_name(k@) {
            rest.push(secret_warning(k@))
        } else {
            rest
        }
    }
}

fn listed(allowed: &[String], name: &String) -> (r: bool)
    ensures
        r == name_listed(allowed@, name@),
{
    let mut i: usize = 0;
    while i < allowed.len()
        invariant
            i <= allowed@.len(),
            forall|j: int| 0 <= j < i ==> allowed@[j]@ != name@,
        decreases allowed@.len() - i,
    {
        if allowed[i] == *name {
            return true;
        }
        i = i + 1;
    }
    false
}

/// Build a sanitized environment from the host variables `vars` and an
/// allowlist of names: only allowed variables are kept, `PATH` is always
/// the fixed safe default, and a warning is pushed for every allowed
/// variable whose name looks like a secret.
pub fn build_env(vars: &[(String, String)], allowed: &[String], warnings: &mut Vec<String>) -> (r: Vec<(String, String)>)
    ensures
        r@.len() == kept_vars(vars@, allowed@).len() + 1,
        forall|i: int| 0 <= i < kept_vars(vars@, allowed@).len() ==> #[trigger] r@[i] == kept_vars(vars@, allowed@)[i],
        r@.last().0@ == "PATH"@ && r@.last().1@ == "/usr/bin:/bin"@,
        final(warnings)@.map_values(|w: String| w@) == old(warnings)@.map_values(|w: String| w@)
            + env_warnings(vars@, allowed@),
{
    let mut out: Vec<(String, String)> = Vec::new();
    let ghost w0 = warnings@.map_values(|w: String| w@);
    let mut i: usize = 0;
    while i < vars.len()
        invariant
            i <= vars@.len(),
            out@ == kept_vars(vars@.subrange(0, i as int), allowed@),
            warnings@.map_values(|w: String| w@) == w0 + env_warnings(vars@.subrange(0, i as int), allowed@),
        decreases vars@.len() - i,
    {
        let (k, v) = &vars[i];
        let ghost prefix = vars@.subrange(0, i + 1);
        assert(prefix.drop_last() =~= vars@.subrange(0, i as int));
        let ok = listed(allowed, k);
        let path = String::from_str("PATH");
        if ok {
            if is_secret_pattern(k.as_str()) {
                let ghost before = warnings@.map_values(|w: String| w@);
                warnings.push(concat2("Secret-pattern env var passed to subprocess: ", k.as_str()));
                assert(warnings@.map_values(|w: String| w@) =~= before.push(secret_warning(k@)));
            }
            if *k != path {
                out.push((k.clone(), v.clone()));
            }
        }
        i = i + 1;
    }
    assert(vars@.subrange(0, vars@.len() as int) =~= vars@);
    let ghost kept = out@;
    out.push((String::from_str("PATH"), String::from_str(SANITIZED_PATH)));
    proof { reveal_strlit("/usr/bin:/bin"); }
    out
}

} // verus!
