//! Naming of the difference output.

use vstd::prelude::*;
use vstd::string::StringExecFns;

verus! {

/// The name of the file that the difference output of `file_name` is
/// written to: the word `derivative`, an underscore, and the name of the
/// input file.
pub fn derivative_file_name(file_name: &str) -> (name: String)
    ensures
        name@ == "derivative_"@ + file_name@,
{
    String::from_str("derivative_").concat(file_name)
}

} // verus!
