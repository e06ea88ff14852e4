//! Build-environment signals: the variables that announce an enabled option.
use vstd::prelude::*;
use vstd::string::*;
use crate::name_set::NameSet;

verus! {

/// The prefix of the variables that announce an enabled option.
pub open spec fn signal_prefix() -> Seq<char> {
    "CARGO_FEATURE_"@
}

/// `name` announces an enabled option.
pub open spec fn is_signal(name: Seq<char>) -> bool {
    name.len() >= signal_prefix().len() && name.take(signal_prefix().len() as int)
        == signal_prefix()
}

/// `name` without the signal prefix, where it has it.
pub open spec fn bare_name(name: Seq<char>) -> Seq<char> {
    if is_signal(name) {
        name.skip(signal_prefix().len() as int)
    } else {
        name
    }
}

/// The lower-case form of `s` that `str::to_lowercase` gives.
pub uninterp spec fn lower_of(s: Seq<char>) -> Seq<char>;

/// The option that the variable `name` announces.
pub open spec fn option_name(name: Seq<char>) -> Seq<char> {
    lower_of(bare_name(name))
}

/// The signal variables among the environment `env`.
pub open spec fn signals_of(env: Seq<(String, String)>) -> Set<Seq<char>> {
    Set::new(
        |n: Seq<char>| is_signal(n) && exists|i: int| 0 <= i < env.len() && #[trigger] env[i].0@ == n,
    )
}

/// The options that the environment `env` enables.
pub open spec fn enabled_of(env: Seq<(String, String)>) -> Set<Seq<char>> {
    Set::new(|o: Seq<char>| exists|n: Seq<char>| #[trigger] signals_of(env).contains(n) && option_name(n) == o)
}

/// Relies on `str::to_lowercase`: the result depends on the characters alone.
#[verifier::external_body]
fn lowercase(s: &str) -> (r: String)
    ensures
        r@ == lower_of(s@),
{
    s.to_lowercase()
}

/// `s` begins with `p`.
pub fn has_prefix(s: &str, p: &str) -> (r: bool)
    ensures
        r == (p@.len() <= s@.len() && s@.take(p@.len() as int) == p@),
{
    let ls = s.unicode_len();
    let lp = p.unicode_len();
    if lp > ls {
        return false;
    }
    let mut i: usize = 0;
    while i < lp
        invariant
            i <= lp <= ls,
            ls == s@.len(),
            lp == p@.len(),
            forall|j: int| 0 <= j < i ==> s@[j] == p@[j],
        decreases lp - i,
    {
        if s.get_char(i) != p.get_char(i) {
            assert(s@.take(lp as int)[i as int] != p@[i as int]);
            return false;
        }
        i += 1;
    }
    assert(s@.take(lp as int) =~= p@);
    true
}

/// The option that the environment variable `s` announces: the name without
/// the signal prefix, in lower case.
pub fn to_feature_name(s: String) -> (r: String)
    ensures
        r@ == option_name(s@),
{
    let prefix = "CARGO_FEATURE_";
    if has_prefix(s.as_str(), prefix) {
        let len = s.as_str().unicode_len();
        let rest = s.as_str().substring_char(prefix.unicode_len(), len);
        lowercase(rest)
    } else {
        lowercase(s.as_str())
    }
}

/// The signal variables among the environment `env`, in ascending order.
pub fn observed_signals(env: &Vec<(String, String)>) -> (r: NameSet)
    ensures
        r.wf(),
        r@ == signals_of(env@),
{
    let mut r = NameSet::new();
    let mut i: usize = 0;
    while i < env.len()
        invariant
            i <= env@.len(),
            r.wf(),
            r@ == signals_of(env@.take(i as int)),
        decreases env.len() - i,
    {
        let name = &env[i].0;
        if has_prefix(name.as_str(), "CARGO_FEATURE_") {
            r.insert(name.clone());
        }
        proof {
            let before = env@.take(i as int);
            let after = env@.take(i + 1);
            assert forall|n: Seq<char>| signals_of(after).contains(n) == r@.contains(n) by {
                if signals_of(after).contains(n) {
                    let k = choose|k: int| 0 <= k < after.len() && #[trigger] after[k].0@ == n;
                    if k < i {
                        assert(before[k].0@ == n);
                    }
                }
                if signals_of(before).contains(n) {
                    let k = choose|k: int| 0 <= k < before.len() && #[trigger] before[k].0@ == n;
                    assert(after[k].0@ == n);
                }
                if is_signal(n) && n == env@[i as int].0@ {
                    assert(after[i as int].0@ == n);
                }
            }
            assert(signals_of(after) =~= r@);
        }
        i += 1;
    }
    assert(env@.take(i as int) =~= env@);
    r
}

/// The options that the environment `env` enables, in ascending order.
pub fn enabled_options(env: &Vec<(String, String)>) -> (r: NameSet)
    ensures
        r.wf(),
        r@ == enabled_of(env@),
{
    let signals = observed_signals(env);
    let names = signals.names();
    proof {
        signals.lemma_listing_sorted();
    }
    let mut r = NameSet::new();
    let mut i: usize = 0;
    while i < names.len()
        invariant
            i <= names@.len(),
            r.wf(),
            signals.wf(),
            signals@ == signals_of(env@),
            crate::name_set::views_of(names@) == signals.listing(),
            r@ == Set::new(
                |o: Seq<char>|
                    exists|k: int| 0 <= k < i && option_name(#[trigger] names@[k]@) == o,
            ),
        decreases names.len() - i,
    {
        let o = to_feature_name(names[i].clone());
        r.insert(o);
        proof {
            assert forall|x: Seq<char>|
                r@.contains(x) <==> exists|k: int|
                    0 <= k < i + 1 && option_name(#[trigger] names@[k]@) == x by {
                if x == option_name(names@[i as int]@) {
                    assert(option_name(names@[i as int]@) == x);
                }
            }
            assert(r@ =~= Set::new(
                |o: Seq<char>|
                    exists|k: int| 0 <= k < i + 1 && option_name(#[trigger] names@[k]@) == o,
            ));
        }
        i += 1;
    }
    proof {
        assert forall|x: Seq<char>| r@.contains(x) <==> enabled_of(env@).contains(x) by {
            if r@.contains(x) {
                let k = choose|k: int| 0 <= k < names@.len() && option_name(#[trigger] names@[k]@) == x;
                assert(signals.listing()[k] == names@[k]@);
                assert(signals.listing().to_set().contains(names@[k]@));
                assert(signals_of(env@).contains(names@[k]@));
            }
            if enabled_of(env@).contains(x) {
                let n = choose|n: Seq<char>| #[trigger] signals_of(env@).contains(n) && option_name(n) == x;
                assert(signals.listing().to_set().contains(n));
                let k = choose|k: int| 0 <= k < signals.listing().len() && signals.listing()[k] == n;
                assert(names@[k]@ == n);
            }
        }
        assert(r@ =~= enabled_of(env@));
    }
    r
}

} // verus!
