//! Launcher guards: the checks made before the input listener starts, and the
//! choice of configuration directory.
//!
//! The process queries (effective user, group list, environment, filesystem)
//! run outside the library and hand their answers to the functions here.
use std::path::PathBuf;
use vstd::prelude::*;
use vstd::string::*;

verus! {

/// Pick the configuration directory: the user's own when it holds a
/// `config.json`, else the bundled defaults when there are any, else the
/// user's directory anyway.
pub fn resolve_config_dir(user: PathBuf, user_has_config: bool, bundled: Option<PathBuf>) -> (r:
    PathBuf)
    ensures
        r == (if user_has_config {
            user
        } else {
            match bundled {
                Some(d) => d,
                None => user,
            }
        }),
{
    if user_has_config {
        user
    } else {
        match bundled {
            Some(d) => d,
            None => user,
        }
    }
}

/// The bundled configuration directory: the first candidate that holds a
/// `config.json` (`has_config[i]` answers for `candidates[i]`).
pub fn first_with_config(candidates: Vec<PathBuf>, has_config: &Vec<bool>) -> (r: Option<PathBuf>)
    requires
        candidates@.len() == has_config@.len(),
    ensures
        match r {
            Some(d) => exists|i: int|
                0 <= i < has_config@.len() && has_config@[i] && candidates@[i] == d && forall|j: int|
                    0 <= j < i ==> !has_config@[j],
            None => forall|j: int| 0 <= j < has_config@.len() ==> !has_config@[j],
        },
{
    let ghost original = candidates@;
    let mut pool = candidates;
    let mut i: usize = 0;
    while i < has_config.len()
        invariant
            i <= has_config@.len(),
            pool@ == original,
            original == candidates@,
            original.len() == has_config@.len(),
            forall|j: int| 0 <= j < i ==> !has_config@[j],
        decreases has_config@.len() - i,
    {
        if has_config[i] {
            let d = pool.remove(i);
            assert(original[i as int] == d);
            assert(0 <= i < has_config@.len() && has_config@[i as int] && original[i as int] == d);
            return Some(d);
        }
        i = i + 1;
    }
    None
}

/// Membership in the `input` group: the primary group counts, then the
/// supplementary groups; without an `input` group nobody is in it.
pub fn in_input_group(gid: u32, input_gid: Option<u32>, groups: &Vec<u32>) -> (r: bool)
    ensures
        r == match input_gid {
            Some(g) => gid == g || groups@.contains(g),
            None => false,
        },
{
    let g = match input_gid {
        Some(g) => g,
        None => return false,
    };
    if gid == g {
        return true;
    }
    let mut i: usize = 0;
    while i < groups.len()
        invariant
            i <= groups@.len(),
            input_gid == Some(g),
            forall|j: int| 0 <= j < i ==> groups@[j] != g,
        decreases groups@.len() - i,
    {
        if groups[i] == g {
            assert(groups@[i as int] == g);
            return true;
        }
        i = i + 1;
    }
    false
}

/// Require the configuration: `Err` when `config.json` is missing.
pub fn require_config(has_config: bool) -> (r: Result<(), String>)
    ensures
        has_config ==> r is Ok,
        !has_config ==> (r matches Err(m) && m@ == "config.json not found"@),
{
    if !has_config {
        return Err(String::from_str("config.json not found"));
    }
    Ok(())
}

/// The permission and configuration checks before the listener starts:
/// refuse to run as root (effective user 0), require membership in the
/// `input` group, and require `config.json` in the configuration directory.
pub fn launcher_checks(euid: u32, in_input_group: bool, has_config: bool) -> (r: Result<(), String>)
    ensures
        euid == 0 ==> (r matches Err(m) && m@ == "do not run as root"@),
        euid != 0 && !in_input_group ==> (r matches Err(m) && m@ == "user not in input group"@),
        euid != 0 && in_input_group && !has_config ==> (r matches Err(m) && m@
            == "config.json not found"@),
        euid != 0 && in_input_group && has_config ==> r is Ok,
{
    if euid == 0 {
        return Err(String::from_str("do not run as root"));
    }
    if !in_input_group {
        return Err(String::from_str("user not in input group"));
    }
    require_config(has_config)
}

} // verus!
