//! What holds of every manifest and every environment.
use vstd::prelude::*;
use crate::directives::cfg_line;
use crate::error::{Failure, FeatureGroupError};
use crate::groups::{
    all_names, first_non_name, group_outcome, groups_outcome, lemma_first_non_name_unique,
    lemma_groups_failure_stays, rendering, scan_options,
};
use crate::manifest::TomlValue;
use crate::pipeline::{build_outcome, outcome_view};
use crate::signals::signals_of;

verus! {

/// The declared option at `j` is a name that `enabled` holds.
pub open spec fn enabled_at(items: Seq<TomlValue>, enabled: Set<Seq<char>>, j: int) -> bool {
    items[j] matches TomlValue::Str(s) && enabled.contains(s@)
}

/// The name declared at `j`.
pub open spec fn name_at(items: Seq<TomlValue>, j: int) -> Seq<char> {
    items[j]->Str_0@
}

/// The options declared by `value`, where it is an array.
pub open spec fn declared(value: TomlValue) -> Seq<TomlValue> {
    match value {
        TomlValue::Array(items) => items@,
        _ => Seq::empty(),
    }
}

/// `value` declares names only, and of them exactly the one at `k` is enabled.
pub open spec fn only_enabled(value: TomlValue, enabled: Set<Seq<char>>, k: int) -> bool {
    &&& value is Array
    &&& all_names(declared(value))
    &&& 0 <= k < declared(value).len()
    &&& enabled_at(declared(value), enabled, k)
    &&& forall|j: int|
        0 <= j < declared(value).len() && j != k ==> !enabled_at(declared(value), enabled, j)
}

/// The scan of a list of names: none enabled selects nothing, exactly one
/// enabled selects it, two enabled fail.
pub proof fn lemma_scan_of_names(group: Seq<char>, items: Seq<TomlValue>, enabled: Set<Seq<char>>)
    requires
        all_names(items),
    ensures
        (forall|j: int| 0 <= j < items.len() ==> !enabled_at(items, enabled, j)) ==> scan_options(
            group,
            items,
            enabled,
        ) == Ok::<Option<Seq<char>>, Failure>(None),
        forall|k: int|
            0 <= k < items.len() && enabled_at(items, enabled, k) && (forall|j: int|
                0 <= j < items.len() && j != k ==> !enabled_at(items, enabled, j)) ==> scan_options(
                group,
                items,
                enabled,
            ) == Ok::<Option<Seq<char>>, Failure>(Some(name_at(items, k))),
        (exists|a: int, b: int|
            0 <= a < b < items.len() && enabled_at(items, enabled, a) && enabled_at(
                items,
                enabled,
                b,
            )) ==> scan_options(group, items, enabled) == Err::<Option<Seq<char>>, Failure>(
            Failure::Multiple { group },
        ),
    decreases items.len(),
{
    if items.len() > 0 {
        let p = items.drop_last();
        let n = items.len() - 1;
        assert forall|j: int| 0 <= j < p.len() implies (#[trigger] p[j] is Str) by {
            assert(p[j] == items[j]);
        }
        lemma_scan_of_names(group, p, enabled);
        assert forall|j: int| 0 <= j < p.len() implies enabled_at(p, enabled, j) == enabled_at(
            items,
            enabled,
            j,
        ) && name_at(p, j) == name_at(items, j) by {
            assert(p[j] == items[j]);
        }
        assert(items.last() == items[n]);
        assert(items[n] is Str);
        if forall|j: int| 0 <= j < items.len() ==> !enabled_at(items, enabled, j) {
            assert forall|j: int| 0 <= j < p.len() implies !enabled_at(p, enabled, j) by {
                assert(p[j] == items[j]);
                assert(!enabled_at(items, enabled, j));
            }
            assert(!enabled_at(items, enabled, n));
        }
        assert forall|k: int|
            0 <= k < items.len() && enabled_at(items, enabled, k) && (forall|j: int|
                0 <= j < items.len() && j != k ==> !enabled_at(items, enabled, j)) implies scan_options(
            group,
            items,
            enabled,
        ) == Ok::<Option<Seq<char>>, Failure>(Some(name_at(items, k))) by {
            if k == n {
                assert forall|j: int| 0 <= j < p.len() implies !enabled_at(p, enabled, j) by {
                    assert(p[j] == items[j]);
                    assert(!enabled_at(items, enabled, j));
                }
            } else {
                assert forall|j: int| 0 <= j < p.len() && j != k implies !enabled_at(
                    p,
                    enabled,
                    j,
                ) by {
                    assert(p[j] == items[j]);
                    assert(!enabled_at(items, enabled, j));
                }
                assert(p[k] == items[k]);
                assert(enabled_at(p, enabled, k));
                assert(!enabled_at(items, enabled, n));
            }
        }
        if exists|a: int, b: int|
            0 <= a < b < items.len() && enabled_at(items, enabled, a) && enabled_at(
                items,
                enabled,
                b,
            ) {
            let (a, b) = choose|a: int, b: int|
                0 <= a < b < items.len() && enabled_at(items, enabled, a) && enabled_at(
                    items,
                    enabled,
                    b,
                );
            if b < n {
                assert(enabled_at(p, enabled, a) && enabled_at(p, enabled, b));
            } else if exists|c: int| 0 <= c < p.len() && c != a && enabled_at(p, enabled, c) {
                let c = choose|c: int| 0 <= c < p.len() && c != a && enabled_at(p, enabled, c);
                if c < a {
                    assert(enabled_at(p, enabled, c) && enabled_at(p, enabled, a));
                } else {
                    assert(enabled_at(p, enabled, a) && enabled_at(p, enabled, c));
                }
            } else {
                assert(enabled_at(p, enabled, a));
            }
        }
    }
}

/// A group whose options are all names and of which exactly one is enabled
/// selects that one.
pub proof fn lemma_single_enabled_selected(
    group: Seq<char>,
    value: TomlValue,
    enabled: Set<Seq<char>>,
    k: int,
)
    requires
        only_enabled(value, enabled, k),
    ensures
        group_outcome(group, value, enabled) == Ok::<Seq<char>, Failure>(
            name_at(declared(value), k),
        ),
{
    lemma_scan_of_names(group, declared(value), enabled);
}

/// If every group succeeds, the groups give one directive each, in their
/// order, binding each group to its selected option.
pub proof fn lemma_all_groups_succeed(groups: Seq<(String, TomlValue)>, enabled: Set<Seq<char>>)
    requires
        forall|i: int|
            0 <= i < groups.len() ==> (#[trigger] group_outcome(groups[i].0@, groups[i].1, enabled)
                is Ok),
    ensures
        groups_outcome(groups, enabled) matches Ok(lines) && lines.len() == groups.len() && forall|
            i: int,
        |
            0 <= i < groups.len() ==> #[trigger] lines[i] == cfg_line(
                groups[i].0@,
                group_outcome(groups[i].0@, groups[i].1, enabled)->Ok_0,
            ),
    decreases groups.len(),
{
    if groups.len() > 0 {
        let p = groups.drop_last();
        assert forall|i: int| 0 <= i < p.len() implies (#[trigger] group_outcome(
            p[i].0@,
            p[i].1,
            enabled,
        ) is Ok) by {
            assert(p[i] == groups[i]);
        }
        lemma_all_groups_succeed(p, enabled);
        assert(group_outcome(groups[groups.len() - 1].0@, groups[groups.len() - 1].1, enabled)
            is Ok);
        let lines = groups_outcome(groups, enabled)->Ok_0;
        assert forall|i: int| 0 <= i < groups.len() implies #[trigger] lines[i] == cfg_line(
            groups[i].0@,
            group_outcome(groups[i].0@, groups[i].1, enabled)->Ok_0,
        ) by {
            if i < p.len() {
                assert(p[i] == groups[i]);
            }
        }
    }
}

/// When every group has exactly one enabled option among declared names,
/// the groups succeed, with exactly one directive per group, binding it to
/// that option.
pub proof fn lemma_one_enabled_per_group(groups: Seq<(String, TomlValue)>, enabled: Set<Seq<char>>)
    requires
        forall|i: int|
            0 <= i < groups.len() ==> exists|k: int| only_enabled(#[trigger] groups[i].1, enabled, k),
    ensures
        groups_outcome(groups, enabled) matches Ok(lines) && lines.len() == groups.len() && forall|
            i: int,
            k: int,
        |
            0 <= i < groups.len() && #[trigger] only_enabled(groups[i].1, enabled, k) ==> lines[i]
                == cfg_line(groups[i].0@, name_at(declared(groups[i].1), k)),
{
    assert forall|i: int| 0 <= i < groups.len() implies (#[trigger] group_outcome(
        groups[i].0@,
        groups[i].1,
        enabled,
    ) is Ok) by {
        let k = choose|k: int| only_enabled(groups[i].1, enabled, k);
        lemma_single_enabled_selected(groups[i].0@, groups[i].1, enabled, k);
    }
    lemma_all_groups_succeed(groups, enabled);
    assert forall|i: int, k: int|
        0 <= i < groups.len() && #[trigger] only_enabled(groups[i].1, enabled, k) implies (
        groups_outcome(groups, enabled)->Ok_0)[i] == cfg_line(
        groups[i].0@,
        name_at(declared(groups[i].1), k),
    ) by {
        lemma_single_enabled_selected(groups[i].0@, groups[i].1, enabled, k);
    }
}

/// A failing group fails the whole check, with no directive for any group;
/// where every group before it succeeds, the failure is its own.
pub proof fn lemma_failing_group(groups: Seq<(String, TomlValue)>, enabled: Set<Seq<char>>, k: int)
    requires
        0 <= k < groups.len(),
        group_outcome(groups[k].0@, groups[k].1, enabled) is Err,
    ensures
        groups_outcome(groups, enabled) is Err,
        (forall|j: int|
            0 <= j < k ==> (#[trigger] group_outcome(groups[j].0@, groups[j].1, enabled) is Ok))
            ==> groups_outcome(groups, enabled) == Err::<Seq<Seq<char>>, Failure>(
            group_outcome(groups[k].0@, groups[k].1, enabled)->Err_0,
        ),
    decreases groups.len(),
{
    let q = groups.take(k + 1);
    assert(q.drop_last() =~= groups.take(k));
    assert(q.last() == groups[k]);
    if groups_outcome(groups.take(k), enabled) is Err {
        lemma_groups_failure_stays(groups, enabled, k);
        lemma_groups_failure_stays(groups, enabled, k + 1);
    } else {
        lemma_groups_failure_stays(groups, enabled, k + 1);
    }
    if forall|j: int|
        0 <= j < k ==> (#[trigger] group_outcome(groups[j].0@, groups[j].1, enabled) is Ok) {
        let p = groups.take(k);
        assert forall|j: int| 0 <= j < p.len() implies (#[trigger] group_outcome(
            p[j].0@,
            p[j].1,
            enabled,
        ) is Ok) by {
            assert(p[j] == groups[j]);
        }
        lemma_all_groups_succeed(p, enabled);
    }
}

/// A group that declares names only, none of them enabled, fails the check;
/// where every group before it succeeds, the failure is `NoneSelected`
/// naming it.
pub proof fn lemma_none_enabled(groups: Seq<(String, TomlValue)>, enabled: Set<Seq<char>>, k: int)
    requires
        0 <= k < groups.len(),
        groups[k].1 is Array,
        all_names(declared(groups[k].1)),
        forall|j: int|
            0 <= j < declared(groups[k].1).len() ==> !enabled_at(declared(groups[k].1), enabled, j),
    ensures
        groups_outcome(groups, enabled) is Err,
        (forall|j: int|
            0 <= j < k ==> (#[trigger] group_outcome(groups[j].0@, groups[j].1, enabled) is Ok))
            ==> groups_outcome(groups, enabled) == Err::<Seq<Seq<char>>, Failure>(
            Failure::NoneSelected { group: groups[k].0@ },
        ),
{
    lemma_scan_of_names(groups[k].0@, declared(groups[k].1), enabled);
    lemma_failing_group(groups, enabled, k);
}

/// A group that declares names only, two or more of them enabled, fails the
/// check; where every group before it succeeds, the failure is `Multiple`
/// naming it.
pub proof fn lemma_several_enabled(
    groups: Seq<(String, TomlValue)>,
    enabled: Set<Seq<char>>,
    k: int,
    a: int,
    b: int,
)
    requires
        0 <= k < groups.len(),
        groups[k].1 is Array,
        all_names(declared(groups[k].1)),
        0 <= a < b < declared(groups[k].1).len(),
        enabled_at(declared(groups[k].1), enabled, a),
        enabled_at(declared(groups[k].1), enabled, b),
    ensures
        groups_outcome(groups, enabled) is Err,
        (forall|j: int|
            0 <= j < k ==> (#[trigger] group_outcome(groups[j].0@, groups[j].1, enabled) is Ok))
            ==> groups_outcome(groups, enabled) == Err::<Seq<Seq<char>>, Failure>(
            Failure::Multiple { group: groups[k].0@ },
        ),
{
    lemma_scan_of_names(groups[k].0@, declared(groups[k].1), enabled);
    lemma_failing_group(groups, enabled, k);
}

/// A group declared with something other than an array fails the check;
/// where every group before it succeeds, the failure is `Shape` naming it.
pub proof fn lemma_not_an_array(groups: Seq<(String, TomlValue)>, enabled: Set<Seq<char>>, k: int)
    requires
        0 <= k < groups.len(),
        !(groups[k].1 is Array),
    ensures
        groups_outcome(groups, enabled) is Err,
        (forall|j: int|
            0 <= j < k ==> (#[trigger] group_outcome(groups[j].0@, groups[j].1, enabled) is Ok))
            ==> groups_outcome(groups, enabled) == Err::<Seq<Seq<char>>, Failure>(
            Failure::Shape { group: groups[k].0@, found: rendering(groups[k].1) },
        ),
{
    lemma_failing_group(groups, enabled, k);
}

/// A group with an element that is not a string fails the check, whatever
/// is enabled; where every group before it succeeds, the failure is
/// `OptionType` naming the group and its first such element.
pub proof fn lemma_not_a_name(
    groups: Seq<(String, TomlValue)>,
    enabled: Set<Seq<char>>,
    k: int,
    m: int,
)
    requires
        0 <= k < groups.len(),
        groups[k].1 is Array,
        first_non_name(declared(groups[k].1), m),
    ensures
        groups_outcome(groups, enabled) is Err,
        (forall|j: int|
            0 <= j < k ==> (#[trigger] group_outcome(groups[j].0@, groups[j].1, enabled) is Ok))
            ==> groups_outcome(groups, enabled) == Err::<Seq<Seq<char>>, Failure>(
            Failure::OptionType { group: groups[k].0@, found: rendering(declared(groups[k].1)[m]) },
        ),
{
    lemma_first_non_name_unique(declared(groups[k].1), m);
    lemma_failing_group(groups, enabled, k);
}

/// The output depends on the environment only through the set of signal
/// variables in it: the order in which the environment lists them, or a
/// second run on the same inputs, changes nothing.
pub proof fn lemma_output_determined(
    text: Seq<char>,
    env1: Seq<(String, String)>,
    env2: Seq<(String, String)>,
    r1: Result<Vec<String>, FeatureGroupError>,
    r2: Result<Vec<String>, FeatureGroupError>,
)
    requires
        signals_of(env1) == signals_of(env2),
        outcome_view(r1) == build_outcome(text, env1),
        outcome_view(r2) == build_outcome(text, env2),
    ensures
        outcome_view(r1) == outcome_view(r2),
{
    assert(crate::signals::enabled_of(env1) =~= crate::signals::enabled_of(env2));
}

} // verus!
