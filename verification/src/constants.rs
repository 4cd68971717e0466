//! Limits of the database columns and other fixed values.
use vstd::prelude::*;

pub mod limits;

verus! {

/// How many repositories are processed at the same time.
pub const ASYNC_LIMIT: usize = 500;

/// The README file names that are probed on a tag or branch, in order.
pub fn possible_readme_file_names() -> (res: Vec<&'static str>)
    ensures
        res@.len() == 3,
        res@[0]@ == "README.md"@,
        res@[1]@ == "README"@,
        res@[2]@ == "readme.txt"@,
{
    let mut names: Vec<&'static str> = Vec::new();
    names.push("README.md");
    names.push("README");
    names.push("readme.txt");
    names
}

} // verus!
