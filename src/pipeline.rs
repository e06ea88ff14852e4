//! The whole build step, as a function of the manifest and of a snapshot of
//! the environment.
use vstd::prelude::*;
use crate::directives::{rerun_directive, rerun_line};
use crate::error::{Failure, FeatureGroupError};
use crate::groups::{cfg_directives, groups_outcome};
use crate::manifest::{manifest_groups, read_manifest};
use crate::name_set::{sorted_listing, views_of, NameSet};
use crate::signals::{enabled_of, enabled_options, observed_signals, signals_of};

verus! {

/// The re-run directives for the signal variables `signals`, in ascending
/// order of name.
pub open spec fn rerun_lines(signals: Set<Seq<char>>) -> Seq<Seq<char>> {
    sorted_listing(signals).map_values(|n: Seq<char>| rerun_line(n))
}

/// What the build step gives for the manifest `text` and the environment
/// `env`: the group directives in the manifest's order followed by the
/// re-run directives, or the first failure.
pub open spec fn build_outcome(text: Seq<char>, env: Seq<(String, String)>) -> Result<
    Seq<Seq<char>>,
    Failure,
> {
    match manifest_groups(text) {
        None => Err(Failure::Malformed),
        Some(groups) => match groups_outcome(groups, enabled_of(env)) {
            Err(f) => Err(f),
            Ok(cfg) => Ok(cfg + rerun_lines(signals_of(env))),
        },
    }
}

/// A result of the build step as the contracts speak of it.
pub open spec fn outcome_view(r: Result<Vec<String>, FeatureGroupError>) -> Result<
    Seq<Seq<char>>,
    Failure,
> {
    match r {
        Ok(lines) => Ok(views_of(lines@)),
        Err(e) => Err(e@),
    }
}

/// One re-run directive for each signal variable of `signals`, in ascending
/// order of name.
pub fn rerun_directives(signals: &NameSet) -> (r: Vec<String>)
    requires
        signals.wf(),
    ensures
        views_of(r@) == rerun_lines(signals@),
{
    let names = signals.names();
    let mut r: Vec<String> = Vec::new();
    let mut i: usize = 0;
    while i < names.len()
        invariant
            i <= names@.len(),
            r@.len() == i,
            views_of(names@) == sorted_listing(signals@),
            views_of(r@) == views_of(names@).take(i as int).map_values(
                |n: Seq<char>| rerun_line(n),
            ),
        decreases names.len() - i,
    {
        let line = rerun_directive(names[i].as_str());
        let ghost before = r@;
        r.push(line);
        assert(views_of(names@)[i as int] == names@[i as int]@);
        assert(views_of(r@) =~= views_of(before).push(rerun_line(names@[i as int]@)));
        assert(views_of(r@) =~= views_of(names@).take(i + 1).map_values(
            |n: Seq<char>| rerun_line(n),
        ));
        i += 1;
    }
    assert(views_of(names@).take(i as int) =~= views_of(names@));
    r
}

/// The build step: reads the groups of the manifest `text`, checks each
/// against the options that the environment `env` enables, and gives the
/// directives to print, or the failure that aborts the build.
pub fn build_directives(text: &str, env: &Vec<(String, String)>) -> (r: Result<
    Vec<String>,
    FeatureGroupError,
>)
    ensures
        outcome_view(r) == build_outcome(text@, env@),
{
    let groups = match read_manifest(text) {
        Ok(groups) => groups,
        Err(e) => return Err(e),
    };
    let enabled = enabled_options(env);
    let mut lines = match cfg_directives(&groups, &enabled) {
        Ok(lines) => lines,
        Err(e) => return Err(e),
    };
    let signals = observed_signals(env);
    let mut rerun = rerun_directives(&signals);
    let ghost cfg = views_of(lines@);
    let ghost tail = views_of(rerun@);
    lines.append(&mut rerun);
    assert(views_of(lines@) =~= cfg + tail);
    Ok(lines)
}

} // verus!
