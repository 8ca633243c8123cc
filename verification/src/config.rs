//! Configuration of the external tools and of the temp file for the
//! open-in-editor action.
//!
//! Each external tool is named by an environment override when one is set
//! and non-empty, and by a fixed default name on the search path otherwise.
//! The temp file carries the process identifier in its name so that
//! concurrent invocations never collide.

use vstd::prelude::*;
use vstd::string::*;

verus! {

/// Resolves one tool: the override when it is set and non-empty, the
/// default name otherwise.  Nothing checks that the tool exists; a missing
/// tool surfaces when invoking it fails.
pub fn resolve_tool(override_value: Option<String>, default_name: &str) -> (r: String)
    ensures
        match override_value {
            Some(v) => if v@.len() > 0 {
                r@ == v@
            } else {
                r@ == default_name@
            },
            None => r@ == default_name@,
        },
{
    match override_value {
        Some(v) => if !v.as_str().is_empty() {
            v
        } else {
            default_name.to_owned()
        },
        None => default_name.to_owned(),
    }
}

/// The editor launchers probed for the open-in-editor action, in order of
/// preference; the first one present on the search path is used.
pub fn editor_candidates() -> (r: Vec<String>)
    ensures
        r@.len() == 5,
        r@[0]@ == "xdg-open"@,
        r@[1]@ == "cosmic-edit"@,
        r@[2]@ == "kate"@,
        r@[3]@ == "kwrite"@,
        r@[4]@ == "gedit"@,
{
    let mut v: Vec<String> = Vec::new();
    v.push(String::from_str("xdg-open"));
    v.push(String::from_str("cosmic-edit"));
    v.push(String::from_str("kate"));
    v.push(String::from_str("kwrite"));
    v.push(String::from_str("gedit"));
    v
}

/// Picks the first candidate that probing found present, preserving the
/// preference order; none present means no editor is launched.
pub fn first_present(present: &Vec<bool>) -> (r: Option<usize>)
    ensures
        match r {
            Some(i) => {
                &&& i < present@.len()
                &&& present@[i as int]
                &&& forall|j: int| 0 <= j < i ==> !present@[j]
            },
            None => forall|j: int| 0 <= j < present@.len() ==> !present@[j],
        },
{
    let mut i: usize = 0;
    while i < present.len()
        invariant
            i <= present@.len(),
            forall|j: int| 0 <= j < i ==> !present@[j],
        decreases present@.len() - i,
    {
        if present[i] {
            return Some(i);
        }
        i += 1;
    }
    None
}

/// The decimal digit for a value below 10.
pub open spec fn dec_digit(d: int) -> char
    recommends
        0 <= d < 10,
{
    if d == 0 { '0' }
    else if d == 1 { '1' }
    else if d == 2 { '2' }
    else if d == 3 { '3' }
    else if d == 4 { '4' }
    else if d == 5 { '5' }
    else if d == 6 { '6' }
    else if d == 7 { '7' }
    else if d == 8 { '8' }
    else { '9' }
}

/// The decimal rendering of a number at its natural width.
pub open spec fn dec_repr(n: nat) -> Seq<char>
    decreases n,
{
    if n < 10 {
        seq![dec_digit(n as int)]
    } else {
        dec_repr(n / 10).push(dec_digit((n % 10) as int))
    }
}

/// The path of the temp file for a given process identifier.
pub open spec fn temp_path_spec(pid: nat) -> Seq<char> {
    "/tmp/clipboard-"@ + dec_repr(pid) + ".txt"@
}

fn dec_digit_str(d: u32) -> (r: &'static str)
    requires
        d < 10,
    ensures
        r@ == seq![dec_digit(d as int)],
{
    if d == 0 {
        proof { reveal_strlit("0"); assert("0"@ =~= seq![dec_digit(0)]); }
        "0"
    } else if d == 1 {
        proof { reveal_strlit("1"); assert("1"@ =~= seq![dec_digit(1)]); }
        "1"
    } else if d == 2 {
        proof { reveal_strlit("2"); assert("2"@ =~= seq![dec_digit(2)]); }
        "2"
    } else if d == 3 {
        proof { reveal_strlit("3"); assert("3"@ =~= seq![dec_digit(3)]); }
        "3"
    } else if d == 4 {
        proof { reveal_strlit("4"); assert("4"@ =~= seq![dec_digit(4)]); }
        "4"
    } else if d == 5 {
        proof { reveal_strlit("5"); assert("5"@ =~= seq![dec_digit(5)]); }
        "5"
    } else if d == 6 {
        proof { reveal_strlit("6"); assert("6"@ =~= seq![dec_digit(6)]); }
        "6"
    } else if d == 7 {
        proof { reveal_strlit("7"); assert("7"@ =~= seq![dec_digit(7)]); }
        "7"
    } else if d == 8 {
        proof { reveal_strlit("8"); assert("8"@ =~= seq![dec_digit(8)]); }
        "8"
    } else {
        proof { reveal_strlit("9"); assert("9"@ =~= seq![dec_digit(9)]); }
        "9"
    }
}

/// Renders a process identifier in decimal at its natural width.
pub fn to_decimal(n: u32) -> (r: String)
    ensures
        r@ == dec_repr(n as nat),
    decreases n,
{
    if n < 10 {
        String::from_str(dec_digit_str(n))
    } else {
        let prefix = to_decimal(n / 10);
        let r = prefix.concat(dec_digit_str(n % 10));
        proof {
            assert(dec_repr((n / 10) as nat).push(dec_digit((n % 10) as int))
                =~= dec_repr((n / 10) as nat) + seq![dec_digit((n % 10) as int)]);
        }
        r
    }
}

/// Builds the temp-file path unique to the running process for the
/// open-in-editor action.
pub fn temp_path(pid: u32) -> (r: String)
    ensures
        r@ == temp_path_spec(pid as nat),
{
    String::from_str("/tmp/clipboard-").concat(to_decimal(pid).as_str()).concat(".txt")
}

} // verus!
