//! The check of each group: exactly one of its options must be enabled.
use vstd::prelude::*;
use vstd::string::*;
use crate::directives::{cfg_directive, cfg_line};
use crate::error::{Failure, FeatureGroupError};
use crate::manifest::TomlValue;
use crate::name_set::{views_of, NameSet};

verus! {

/// How a value that should have been an option name is shown in a failure.
pub open spec fn rendering(v: TomlValue) -> Seq<char> {
    match v {
        TomlValue::Str(s) => "\""@ + s@ + "\""@,
        TomlValue::Array(_) => "an array"@,
        TomlValue::Table(_) => "a table"@,
        TomlValue::Other(s) => s@,
    }
}

/// Shows `v` as a failure names it.
pub fn render(v: &TomlValue) -> (r: String)
    ensures
        r@ == rendering(*v),
{
    match v {
        TomlValue::Str(s) => {
            let mut r = String::from_str("\"");
            r.append(s.as_str());
            r.append("\"");
            r
        },
        TomlValue::Array(_) => String::from_str("an array"),
        TomlValue::Table(_) => String::from_str("a table"),
        TomlValue::Other(s) => s.clone(),
    }
}

/// Every declared option is a name.
pub open spec fn all_names(items: Seq<TomlValue>) -> bool {
    forall|j: int| 0 <= j < items.len() ==> (#[trigger] items[j] is Str)
}

/// The element at `k` is the first declared option that is not a name.
pub open spec fn first_non_name(items: Seq<TomlValue>, k: int) -> bool {
    &&& 0 <= k < items.len()
    &&& !(items[k] is Str)
    &&& forall|j: int| 0 <= j < k ==> (#[trigger] items[j] is Str)
}

/// The scan of the first `items.len()` declared names of `group`, from the
/// first to the last: the option selected so far, or the conflict.
/// A second enabled option is a failure wherever it stands.
pub open spec fn scan_options(
    group: Seq<char>,
    items: Seq<TomlValue>,
    enabled: Set<Seq<char>>,
) -> Result<Option<Seq<char>>, Failure>
    decreases items.len(),
{
    if items.len() == 0 {
        Ok(None)
    } else {
        match scan_options(group, items.drop_last(), enabled) {
            Err(f) => Err(f),
            Ok(selected) => match items.last() {
                TomlValue::Str(s) => if !enabled.contains(s@) {
                    Ok(selected)
                } else if selected is Some {
                    Err(Failure::Multiple { group })
                } else {
                    Ok(Some(s@))
                },
                _ => Ok(selected),
            },
        }
    }
}

/// The option selected for `group`, declared as `value`, where `enabled`
/// holds the enabled options; or why there is none. The declaration must be
/// an array of names before any option is looked up: an element that is not
/// a name fails the group, whatever is enabled.
pub open spec fn group_outcome(group: Seq<char>, value: TomlValue, enabled: Set<Seq<char>>) -> Result<
    Seq<char>,
    Failure,
> {
    match value {
        TomlValue::Array(items) => if !all_names(items@) {
            let k = choose|k: int| first_non_name(items@, k);
            Err(Failure::OptionType { group, found: rendering(items@[k]) })
        } else {
            match scan_options(group, items@, enabled) {
            Err(f) => Err(f),
            Ok(None) => Err(Failure::NoneSelected { group }),
            Ok(Some(o)) => Ok(o),
            }
        },
        other => Err(Failure::Shape { group, found: rendering(other) }),
    }
}

/// The directives for the groups `groups`, in their order, or the failure of
/// the first group that fails.
pub open spec fn groups_outcome(groups: Seq<(String, TomlValue)>, enabled: Set<Seq<char>>) -> Result<
    Seq<Seq<char>>,
    Failure,
>
    decreases groups.len(),
{
    if groups.len() == 0 {
        Ok(Seq::empty())
    } else {
        match groups_outcome(groups.drop_last(), enabled) {
            Err(f) => Err(f),
            Ok(lines) => match group_outcome(groups.last().0@, groups.last().1, enabled) {
                Err(f) => Err(f),
                Ok(o) => Ok(lines.push(cfg_line(groups.last().0@, o))),
            },
        }
    }
}

/// A declaration has at most one first non-name, and where one is found it
/// is the one that the failure shows.
pub proof fn lemma_first_non_name_unique(items: Seq<TomlValue>, k: int)
    requires
        first_non_name(items, k),
    ensures
        !all_names(items),
        forall|m: int| first_non_name(items, m) ==> m == k,
        (choose|m: int| first_non_name(items, m)) == k,
{
    assert(!(items[k] is Str));
    assert forall|m: int| first_non_name(items, m) implies m == k by {
        if m < k {
            assert(items[m] is Str);
        } else if m > k {
            assert(items[k] is Str);
        }
    }
}

/// A failure in the scan of a prefix is the failure of the whole scan.
pub proof fn lemma_scan_failure_stays(
    group: Seq<char>,
    items: Seq<TomlValue>,
    enabled: Set<Seq<char>>,
    k: int,
)
    requires
        0 <= k <= items.len(),
        scan_options(group, items.take(k), enabled) is Err,
    ensures
        scan_options(group, items, enabled) == scan_options(group, items.take(k), enabled),
    decreases items.len() - k,
{
    if k < items.len() {
        assert(items.take(k + 1).drop_last() =~= items.take(k));
        lemma_scan_failure_stays(group, items, enabled, k + 1);
    } else {
        assert(items.take(k) =~= items);
    }
}

/// A failure among the first groups is the failure of them all.
pub proof fn lemma_groups_failure_stays(
    groups: Seq<(String, TomlValue)>,
    enabled: Set<Seq<char>>,
    k: int,
)
    requires
        0 <= k <= groups.len(),
        groups_outcome(groups.take(k), enabled) is Err,
    ensures
        groups_outcome(groups, enabled) == groups_outcome(groups.take(k), enabled),
    decreases groups.len() - k,
{
    if k < groups.len() {
        assert(groups.take(k + 1).drop_last() =~= groups.take(k));
        lemma_groups_failure_stays(groups, enabled, k + 1);
    } else {
        assert(groups.take(k) =~= groups);
    }
}

/// The view of an optional string.
pub open spec fn opt_view(o: Option<String>) -> Option<Seq<char>> {
    match o {
        Some(s) => Some(s@),
        None => None,
    }
}

/// Checks the group `group`, declared as `value`: the option selected, or
/// why there is none.
pub fn resolve_group(group: &String, value: &TomlValue, enabled: &NameSet) -> (r: Result<
    String,
    FeatureGroupError,
>)
    ensures
        match group_outcome(group@, *value, enabled@) {
            Ok(o) => r matches Ok(s) && s@ == o,
            Err(f) => r matches Err(e) && e@ == f,
        },
{
    let items = match value {
        TomlValue::Array(items) => items,
        _ => {
            return Err(
                FeatureGroupError::InvalidGroupShape { group: group.clone(), found: render(value) },
            );
        },
    };
    let mut i: usize = 0;
    while i < items.len()
        invariant
            i <= items@.len(),
            *value == TomlValue::Array(*items),
            forall|j: int| 0 <= j < i ==> (#[trigger] items@[j] is Str),
        decreases items.len() - i,
    {
        let is_name = match &items[i] {
            TomlValue::Str(_) => true,
            _ => false,
        };
        if !is_name {
            proof {
                lemma_first_non_name_unique(items@, i as int);
            }
            return Err(
                FeatureGroupError::InvalidOptionType { group: group.clone(), found: render(&items[i]) },
            );
        }
        i += 1;
    }
    assert(all_names(items@));
    let mut selected: Option<String> = None;
    let mut i: usize = 0;
    assert(items@.take(0) =~= Seq::<TomlValue>::empty());
    while i < items.len()
        invariant
            i <= items@.len(),
            *value == TomlValue::Array(*items),
            all_names(items@),
            scan_options(group@, items@.take(i as int), enabled@) == Ok::<
                Option<Seq<char>>,
                Failure,
            >(opt_view(selected)),
        decreases items.len() - i,
    {
        assert(items@.take(i + 1).drop_last() =~= items@.take(i as int));
        assert(items@.take(i + 1).last() == items@[i as int]);
        match &items[i] {
            TomlValue::Str(s) => {
                if enabled.contains(s) {
                    if selected.is_some() {
                        proof {
                            lemma_scan_failure_stays(group@, items@, enabled@, i + 1);
                        }
                        return Err(FeatureGroupError::MultipleOptionsSelected { group: group.clone() });
                    }
                    selected = Some(s.clone());
                }
            },
            _ => {},
        }
        i += 1;
    }
    assert(items@.take(i as int) =~= items@);
    match selected {
        Some(s) => Ok(s),
        None => Err(FeatureGroupError::NoOptionSelected { group: group.clone() }),
    }
}

/// Checks every group of `groups`, in order: the directive for each, or the
/// failure of the first group that fails.
pub fn cfg_directives(groups: &Vec<(String, TomlValue)>, enabled: &NameSet) -> (r: Result<
    Vec<String>,
    FeatureGroupError,
>)
    ensures
        match groups_outcome(groups@, enabled@) {
            Ok(lines) => r matches Ok(v) && views_of(v@) == lines,
            Err(f) => r matches Err(e) && e@ == f,
        },
{
    let mut lines: Vec<String> = Vec::new();
    let mut i: usize = 0;
    assert(groups@.take(0) =~= Seq::<(String, TomlValue)>::empty());
    assert(views_of(lines@) =~= Seq::<Seq<char>>::empty());
    while i < groups.len()
        invariant
            i <= groups@.len(),
            groups_outcome(groups@.take(i as int), enabled@) == Ok::<Seq<Seq<char>>, Failure>(
                views_of(lines@),
            ),
        decreases groups.len() - i,
    {
        assert(groups@.take(i + 1).drop_last() =~= groups@.take(i as int));
        assert(groups@.take(i + 1).last() == groups@[i as int]);
        let (name, value) = &groups[i];
        match resolve_group(name, value, enabled) {
            Ok(option) => {
                let line = cfg_directive(name.as_str(), option.as_str());
                let ghost before = lines@;
                lines.push(line);
                assert(views_of(lines@) =~= views_of(before).push(line@));
            },
            Err(e) => {
                proof {
                    lemma_groups_failure_stays(groups@, enabled@, i + 1);
                }
                return Err(e);
            },
        }
        i += 1;
    }
    assert(groups@.take(i as int) =~= groups@);
    Ok(lines)
}

} // verus!
