use vstd::prelude::*;
use vstd::string::*;

verus! {

/// The proc hook's edit of its argument's `stringy` field: where the field holds a string,
/// it gains a fixed suffix and the global string `flumpty`.
pub fn hello_proc_hook(stringy: Option<String>, flumpty: &str) -> (r: Option<String>)
    ensures
        match stringy {
            Some(s) => r matches Some(t) && t@ == s@ + " is a smarty pants"@ + flumpty@,
            None => r is None,
        },
{
    match stringy {
        Some(mut s) => {
            s.append(" is a smarty pants");
            s.append(flumpty);
            Some(s)
        },
        None => None,
    }
}

} // verus!
