use vstd::prelude::*;

use crate::error::RunnerErrorKind;
use crate::parser::SelectLocator;
use crate::runner::Runner;
use crate::webdriver::{Element, Locator, Webdriver};
use vstd::string::StringExecFns;

verus! {

/// Add one option, found by its label, to a multi-select element's
/// selection.
#[derive(Debug)]
pub struct Select {
    pub target: Locator,
    pub select_target: SelectLocator,
}

impl Select {
    pub fn new(target: Locator, select_target: SelectLocator) -> (r: Self)
        ensures
            r.target == target,
            r.select_target == select_target,
    {
        Self { target, select_target }
    }

    /// Pick the option the stored strategy names, as the select command
    /// does.
    pub fn run<D: Webdriver>(&self, runner: &mut Runner<D>) -> (r: Result<(), RunnerErrorKind>)
        ensures
            final(runner).vars() == old(runner).vars(),
            final(runner).echoes_log() == old(runner).echoes_log(),
            final(runner).results_log() == old(runner).results_log(),
    {
        crate::command::Select::new(self.target.clone(), self.select_target.clone()).run(runner)
    }
}

} // verus!
