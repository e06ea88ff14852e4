//! The lines that the build step hands to the compilation driver.
use vstd::prelude::*;
use vstd::string::*;

verus! {

/// `cargo:rustc-cfg=<group>="<option>"`: binds a group to its option.
pub open spec fn cfg_line(group: Seq<char>, option: Seq<char>) -> Seq<char> {
    "cargo:rustc-cfg="@ + group + "=\""@ + option + "\""@
}

/// `cargo:rerun-if-env-changed=<name>`: repeat the step when `name` changes.
pub open spec fn rerun_line(name: Seq<char>) -> Seq<char> {
    "cargo:rerun-if-env-changed="@ + name
}

/// The directive that binds `group` to `option`.
pub fn cfg_directive(group: &str, option: &str) -> (r: String)
    ensures
        r@ == cfg_line(group@, option@),
{
    let mut r = String::from_str("cargo:rustc-cfg=");
    r.append(group);
    r.append("=\"");
    r.append(option);
    r.append("\"");
    r
}

/// The directive that asks for a new run when the variable `name` changes.
pub fn rerun_directive(name: &str) -> (r: String)
    ensures
        r@ == rerun_line(name@),
{
    let mut r = String::from_str("cargo:rerun-if-env-changed=");
    r.append(name);
    r
}

} // verus!
