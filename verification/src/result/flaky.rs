//! Tests that passed only after a retry.
use crate::duration::Duration;
use crate::name::{self, full_name_text};
use vstd::prelude::*;

verus! {

/// A test that failed at first and passed on a later attempt of the same run.
#[derive(Debug)]
pub struct FlakyTest {
    pub module_name: String,
    pub function_name: String,
    pub params: Option<String>,
    /// The attempt that passed, counted from one.
    pub passed_on: u32,
    pub total_attempts: u32,
    pub duration: Duration,
}

impl FlakyTest {
    /// The name that the test goes by.
    pub open spec fn identity(self) -> Seq<char> {
        name::full_name(self.module_name@, self.function_name@, name::optional_text(self.params))
    }

    /// The full name of the test, parametrize id included.
    pub fn full_name(&self) -> (name: String)
        ensures
            name@ == self.identity(),
    {
        full_name_text(
            self.module_name.as_str(),
            self.function_name.as_str(),
            match &self.params {
                Some(params) => Some(params.as_str()),
                None => None,
            },
        )
    }
}

/// A flaky test goes by the name that the test has: module, two colons, function and
/// parametrize id, whatever its attempts.
pub proof fn law_flaky_tests_keep_their_names(test: FlakyTest)
    ensures
        test.params is None ==> test.identity() == test.module_name@ + seq![':', ':']
            + test.function_name@,
        test.params matches Some(id) ==> test.identity() == test.module_name@ + seq![':', ':']
            + test.function_name@ + id@,
{
    reveal_strlit("::");
    assert("::"@ =~= seq![':', ':']);
}

} // verus!
