use vstd::prelude::*;

use crate::command;
use crate::emit::{emit_variables, emit_variables_custom, spec_emit_plain};
use crate::error::{RunnerError, RunnerErrorKind};
use crate::parser::{Cmd, File};
use crate::store::VarStore;
use crate::value::{clone_value, Value, ValueV};
use crate::webdriver::Webdriver;
use vstd::string::StringExecFns;

verus! {

/// A runtime for one script run: it owns the driver handle, the variable
/// store, and the log of echoed messages. It runs commands and controls
/// program flow.
pub struct Runner<D> {
    pub webdriver: D,
    pub data: VarStore,
    pub echoed: Vec<String>,
    pub script_results: Vec<Value>,
}

impl<D> Runner<D> {
    /// The variable environment, as names to value shapes.
    pub open spec fn vars(&self) -> Map<Seq<char>, ValueV> {
        self.data@
    }

    /// Every message echoed so far, oldest first.
    pub open spec fn echoes_log(&self) -> Seq<Seq<char>> {
        self.echoed@.map_values(|s: String| s@)
    }

    /// The values every script call has returned so far, oldest first:
    /// the record the engine's contracts are stated against.
    pub open spec fn results_log(&self) -> Seq<ValueV> {
        self.script_results@.map_values(|v: Value| v@)
    }

    /// A runner over a driver backend, with an empty store and log.
    pub fn new(client: D) -> (r: Runner<D>)
        ensures
            r.vars() == Map::<Seq<char>, ValueV>::empty(),
            r.echoes_log() == Seq::<Seq<char>>::empty(),
            r.results_log() == Seq::<ValueV>::empty(),
    {
        let r = Self {
            webdriver: client,
            data: VarStore::new(),
            echoed: Vec::new(),
            script_results: Vec::new(),
        };
        proof {
            assert(r.echoes_log() =~= Seq::<Seq<char>>::empty());
            assert(r.results_log() =~= Seq::<ValueV>::empty());
        }
        r
    }

    /// Bind a variable; tests run later see it too.
    pub fn save_value(&mut self, var: String, value: Value)
        ensures
            final(self).vars() == old(self).vars().insert(var@, value@),
            final(self).echoes_log() == old(self).echoes_log(),
            final(self).results_log() == old(self).results_log(),
    {
        self.data.set(var, value);
    }

    /// The value bound to a variable, if any.
    pub fn get_value(&self, var: &str) -> (r: Option<&Value>)
        ensures
            match r {
                Some(v) => self.vars().contains_key(var@) && v@ == self.vars()[var@],
                None => !self.vars().contains_key(var@),
            },
    {
        self.data.get(var)
    }

    /// The whole variable store collected over the runs.
    pub fn get_data(&self) -> (r: &VarStore)
        ensures
            r@ == self.vars(),
    {
        &self.data
    }

    /// Every message echoed so far, oldest first.
    pub fn echoes(&self) -> (r: &Vec<String>)
        ensures
            r@.map_values(|s: String| s@) == self.echoes_log(),
    {
        &self.echoed
    }

    /// Append one message to the echo log.
    pub(crate) fn echo(&mut self, message: &str)
        ensures
            final(self).vars() == old(self).vars(),
            final(self).echoes_log() == old(self).echoes_log().push(message@),
            final(self).results_log() == old(self).results_log(),
    {
        let ghost pre = self.echoed@.map_values(|s: String| s@);
        self.echoed.push(message.to_owned());
        proof {
            assert(self.echoed@.map_values(|s: String| s@) =~= pre.push(message@));
        }
    }

    /// The text with each complete `${name}` token replaced by the plain
    /// rendering of its variable; an unbound name stays verbatim.
    pub fn emit(&self, s: &str) -> (r: String)
        ensures
            r@ == spec_emit_plain(s@, self.vars()),
    {
        emit_variables(s, &self.data)
    }
}

impl<D: Webdriver> Runner<D> {
    /// Close the underlying driver session.
    pub fn close(self) -> (r: Result<(), RunnerErrorKind>) {
        let mut this = self;
        this.webdriver.close()
    }

    /// Rewrite a script's `${name}` tokens into positional arguments, look
    /// the named values up, and hand both to the driver; record what came
    /// back. An unbound name becomes a null argument.
    pub(crate) fn exec(&mut self, script: &str) -> (r: Result<Value, RunnerErrorKind>)
        ensures
            final(self).vars() == old(self).vars(),
            final(self).echoes_log() == old(self).echoes_log(),
            r matches Ok(v) ==> final(self).results_log() == old(self).results_log().push(v@),
            r is Err ==> final(self).results_log() == old(self).results_log(),
    {
        let (script, used_vars) = emit_variables_custom(script);
        let args = self.collect_args(&used_vars);
        let mut prepared = "return (function(arguments) { ".to_owned();
        prepared.append(script.as_str());
        prepared.append(" })(arguments)");
        let r = self.webdriver.execute(prepared.as_str(), args);
        match r {
            Ok(v) => {
                self.record_result(&v);
                Ok(v)
            },
            Err(e) => Err(e),
        }
    }

    /// As `exec`, but through the driver's asynchronous script call.
    pub(crate) fn exec_async(&mut self, script: &str) -> (r: Result<Value, RunnerErrorKind>)
        ensures
            final(self).vars() == old(self).vars(),
            final(self).echoes_log() == old(self).echoes_log(),
            r matches Ok(v) ==> final(self).results_log() == old(self).results_log().push(v@),
            r is Err ==> final(self).results_log() == old(self).results_log(),
    {
        let (script, used_vars) = emit_variables_custom(script);
        let args = self.collect_args(&used_vars);
        let mut prepared = "return (function(arguments) { ".to_owned();
        prepared.append(script.as_str());
        prepared.append(" })(arguments)");
        let r = self.webdriver.execute_async(prepared.as_str(), args);
        match r {
            Ok(v) => {
                self.record_result(&v);
                Ok(v)
            },
            Err(e) => Err(e),
        }
    }

    /// Keep a copy of one script result in the record.
    fn record_result(&mut self, v: &Value)
        ensures
            final(self).vars() == old(self).vars(),
            final(self).echoes_log() == old(self).echoes_log(),
            final(self).results_log() == old(self).results_log().push(v@),
    {
        let ghost pre = self.script_results@.map_values(|x: Value| x@);
        let c = clone_value(v);
        self.script_results.push(c);
        proof {
            assert(self.script_results@.map_values(|x: Value| x@) =~= pre.push(v@));
        }
    }

    /// The values of the named variables, in order; null for an unbound
    /// name.
    fn collect_args(&self, used_vars: &Vec<String>) -> (r: Vec<Value>)
        ensures
            r@.len() == used_vars@.len(),
            forall|j: int|
                0 <= j < used_vars@.len() ==> (#[trigger] r@[j])@ == (if self.vars().contains_key(
                    used_vars@[j]@,
                ) {
                    self.vars()[used_vars@[j]@]
                } else {
                    ValueV::Null
                }),
    {
        let mut args: Vec<Value> = Vec::new();
        let mut i: usize = 0;
        while i < used_vars.len()
            invariant
                i <= used_vars@.len(),
                args@.len() == i,
                forall|j: int|
                    0 <= j < i ==> (#[trigger] args@[j])@ == (if self.vars().contains_key(
                        used_vars@[j]@,
                    ) {
                        self.vars()[used_vars@[j]@]
                    } else {
                        ValueV::Null
                    }),
            decreases used_vars@.len() - i,
        {
            let arg = match self.data.get(used_vars[i].as_str()) {
                Some(v) => clone_value(v),
                None => Value::Null,
            };
            args.push(arg);
            i += 1;
        }
        args
    }

    /// Run every test of a file in its position order, stopping at the
    /// first failure, whose error names the failing test; the store and
    /// the logs persist across the tests, never reset between them.
    pub fn run(&mut self, file: &File) -> (r: Result<(), RunnerError>)
        ensures
            old(self).echoes_log().is_prefix_of(final(self).echoes_log()),
            old(self).results_log().is_prefix_of(final(self).results_log()),
            r matches Err(e) ==> exists|t: int|
                0 <= t < file.tests@.len() && (e.test matches Some(n) && n@ == (
                #[trigger] file.tests@[t]).name@),
    {
        let mut test: usize = 0;
        while test < file.tests.len()
            invariant
                test <= file.tests@.len(),
                old(self).echoes_log().is_prefix_of(self.echoes_log()),
                old(self).results_log().is_prefix_of(self.results_log()),
            decreases file.tests@.len() - test,
        {
            let r = self.run_test(file, test);
            if r.is_err() {
                proof {
                    lemma_prefix_trans(
                        old(self).echoes_log(),
                        self.echoes_log(),
                        final(self).echoes_log(),
                    );
                }
                return r;
            }
            test += 1;
        }
        Ok(())
    }

    /// Run one test of a file, picked by its position.
    pub fn run_test(&mut self, file: &File, test: usize) -> (r: Result<(), RunnerError>)
        requires
            test < file.tests@.len(),
        ensures
            old(self).echoes_log().is_prefix_of(final(self).echoes_log()),
            old(self).results_log().is_prefix_of(final(self).results_log()),
            r matches Err(e) ==> (e.test matches Some(n) && n@ == file.tests@[test as int].name@),
            !crate::validation::spec_valid(file.tests@[test as int].commands@) ==> (r matches Err(
                e,
            ) && e.kind is BranchValidationError),
    {
        crate::playground::Playground::run_test(self, file, test)
    }

    /// Perform one atomic operation. Flow commands never reach this point
    /// from the engine; handed one anyway, it reports a mismatch.
    pub(crate) fn run_command(&mut self, file_url: &str, cmd: &Cmd) -> (r: Result<
        (),
        RunnerErrorKind,
    >)
        ensures
            old(self).echoes_log().is_prefix_of(final(self).echoes_log()),
            old(self).results_log().is_prefix_of(final(self).results_log()),
            cmd matches Cmd::Echo(m) ==> (r is Ok && final(self).vars() == old(self).vars()
                && final(self).echoes_log() == old(self).echoes_log().push(
                spec_emit_plain(m@, old(self).vars()),
            ) && final(self).results_log() == old(self).results_log()),
            cmd matches Cmd::Store { var, value } ==> (r is Ok && final(self).vars() == old(
                self,
            ).vars().insert(var@, ValueV::Str(value@)) && final(self).echoes_log() == old(
                self,
            ).echoes_log() && final(self).results_log() == old(self).results_log()),
            cmd matches Cmd::Assert { var, value } ==> (final(self).vars() == old(self).vars()
                && final(self).echoes_log() == old(self).echoes_log()
                && final(self).results_log() == old(self).results_log() && (r is Ok
                <==> command::spec_shown(
                old(self).vars(),
                var@,
            ) == value@) && (r is Err ==> (r matches Err(RunnerErrorKind::AssertFailed {
                lhs,
                rhs,
            }) && lhs@ == command::spec_shown(old(self).vars(), var@) && rhs@ == value@))),
            (cmd is While || cmd is If || cmd is ElseIf || cmd is Else || cmd is Do
                || cmd is RepeatIf || cmd is ForEach || cmd is Times || cmd is End
                || cmd is Custom || cmd is RunTest) ==> (r matches Err(
                RunnerErrorKind::MismatchedType(_),
            ) && final(self).vars() == old(self).vars() && final(self).echoes_log() == old(
                self,
            ).echoes_log() && final(self).results_log() == old(self).results_log()),
    {
        proof {
            broadcast use lemma_prefix_refl;
        }
        match cmd {
            Cmd::Open(url) => command::Open::new(url.clone(), file_url.to_owned()).run(self),
            Cmd::Echo(text) => command::Echo::new(text.clone()).run(self),
            Cmd::Store { var, value } => command::Store::new(var.clone(), value.clone()).run(
                self,
            ),
            Cmd::Assert { var, value } => command::Assert::new(var.clone(), value.clone()).run(
                self,
            ),
            Cmd::Execute { script, var } => command::Execute::new(
                script.clone(),
                clone_opt_string(var),
            ).run(self),
            Cmd::ExecuteAsync { script, var } => command::ExecuteAsync::new(
                script.clone(),
                clone_opt_string(var),
            ).run(self),
            Cmd::RunScript { script } => command::RunScript::new(script.clone()).run(self),
            Cmd::StoreText { var, target, .. } => command::StoreText::new(
                crate::webdriver::Locator::from_target(target.clone()),
                var.clone(),
            ).run(self),
            Cmd::StoreTitle(var) => command::StoreTitle::new(var.clone()).run(self),
            Cmd::StoreXpathCount { var, xpath } => command::StoreXpathCount::new(
                xpath.clone(),
                clone_opt_string(var),
            ).run(self),
            Cmd::Click(target) => command::Click::new(
                crate::webdriver::Locator::from_target(target.clone()),
            ).run(self),
            Cmd::DoubleClick(target) => command::DoubleClick::new(
                crate::webdriver::Locator::from_target(target.clone()),
            ).run(self),
            Cmd::MouseDown(target) => command::MouseDown::new(
                crate::webdriver::Locator::from_target(target.clone()),
            ).run(self),
            Cmd::MouseUp(target) => command::MouseUp::new(
                crate::webdriver::Locator::from_target(target.clone()),
            ).run(self),
            Cmd::Check(target) => command::Check::new(
                crate::webdriver::Locator::from_target(target.clone()),
            ).run(self),
            Cmd::UnCheck(target) => command::UnCheck::new(
                crate::webdriver::Locator::from_target(target.clone()),
            ).run(self),
            Cmd::Pause(timeout) => command::Pause::new(*timeout).run(self),
            Cmd::SetWindowSize(w, h) => command::SetWindowSize::new(*w, *h).run(self),
            Cmd::Select { target, locator } => command::Select::new(
                crate::webdriver::Locator::from_target(target.clone()),
                locator.clone(),
            ).run(self),
            Cmd::WaitForElementVisible { timeout, target } => command::WaitForElementVisible::new(
                crate::webdriver::Locator::from_target(target.clone()),
                *timeout,
            ).run(self),
            Cmd::WaitForElementEditable { timeout, target } => {
                command::WaitForElementEditable::new(
                    crate::webdriver::Locator::from_target(target.clone()),
                    *timeout,
                ).run(self)
            },
            Cmd::WaitForElementNotPresent { timeout, target } => {
                command::WaitForElementNotPresent::new(
                    crate::webdriver::Locator::from_target(target.clone()),
                    *timeout,
                ).run(self)
            },
            Cmd::WaitForElementPresent { timeout, target } => {
                command::WaitForElementPresent::new(
                    crate::webdriver::Locator::from_target(target.clone()),
                    *timeout,
                ).run(self)
            },
            Cmd::Close => command::Close.run(self),
            Cmd::AnswerOnNextPrompt(message) => command::AnswerOnNextPrompt::new(
                message.clone(),
            ).run(self),
            Cmd::AssertAlert(expect) => command::AssertAlert::new(expect.clone()).run(self),
            Cmd::AssertPrompt(expect) => command::AssertPrompt::new(expect.clone()).run(self),
            Cmd::AssertConfirmation(expect) => command::AssertConfirmation::new(
                expect.clone(),
            ).run(self),
            Cmd::AssertChecked(target) => command::AssertChecked::new(
                crate::webdriver::Locator::from_target(target.clone()),
            ).run(self),
            Cmd::AssertNotChecked(target) => command::AssertNotChecked::new(
                crate::webdriver::Locator::from_target(target.clone()),
            ).run(self),
            Cmd::AssertSelectedValue(target, value) => command::AssertSelectedValue::new(
                crate::webdriver::Locator::from_target(target.clone()),
                value.clone(),
            ).run(self),
            Cmd::AssertNotSelectedValue(target, value) => command::AssertNotSelectedValue::new(
                crate::webdriver::Locator::from_target(target.clone()),
                value.clone(),
            ).run(self),
            Cmd::AssertText(target, value) => command::AssertText::new(
                crate::webdriver::Locator::from_target(target.clone()),
                value.clone(),
            ).run(self),
            Cmd::AssertNotText(target, value) => command::AssertNotText::new(
                crate::webdriver::Locator::from_target(target.clone()),
                value.clone(),
            ).run(self),
            Cmd::AssertTitle(t) => command::AssertTitle::new(t.clone()).run(self),
            Cmd::AssertValue(target, value) => command::AssertValue::new(
                crate::webdriver::Locator::from_target(target.clone()),
                value.clone(),
            ).run(self),
            Cmd::AssertSelectedLabel(target, value) => command::AssertSelectedLabel::new(
                crate::webdriver::Locator::from_target(target.clone()),
                value.clone(),
            ).run(self),
            Cmd::EditContent(target, value) => command::EditContent::new(
                crate::webdriver::Locator::from_target(target.clone()),
                value.clone(),
            ).run(self),
            Cmd::SendKeys(target, value) => command::SendKeys::new(
                crate::webdriver::Locator::from_target(target.clone()),
                value.clone(),
            ).run(self),
            Cmd::Type(target, value) => command::Type::new(
                crate::webdriver::Locator::from_target(target.clone()),
                value.clone(),
            ).run(self),
            Cmd::ChooseCancelOnNextConfirmation => command::ChooseCancelOnNextConfirmation.run(
                self,
            ),
            Cmd::ChooseOkOnNextConfirmation => command::ChooseOkOnNextConfirmation.run(self),
            Cmd::ChooseCancelOnNextPrompt => command::ChooseCancelOnNextPrompt.run(self),
            Cmd::While(..) | Cmd::If(..) | Cmd::ElseIf(..) | Cmd::Else | Cmd::Do | Cmd::RepeatIf(
                ..,
            ) | Cmd::ForEach { .. } | Cmd::Times(..) | Cmd::End | Cmd::Custom { .. }
                | Cmd::RunTest(..) => Err(
                RunnerErrorKind::MismatchedType("a flow command cannot be run here".to_owned()),
            ),
        }
    }
}

/// Prefixes chain: a prefix of a prefix is a prefix.
proof fn lemma_prefix_trans<A>(a: Seq<A>, b: Seq<A>, c: Seq<A>)
    requires
        a.is_prefix_of(b),
        b.is_prefix_of(c),
    ensures
        a.is_prefix_of(c),
{
    assert(a =~= c.subrange(0, a.len() as int));
}

/// Every record is a prefix of itself.
pub broadcast proof fn lemma_prefix_refl<A>(s: Seq<A>)
    ensures
        #[trigger] s.is_prefix_of(s),
{
    assert(s.subrange(0, s.len() as int) =~= s);
}

/// A fresh copy of an optional name.
fn clone_opt_string(v: &Option<String>) -> (r: Option<String>)
    ensures
        r == v,
{
    match v {
        Some(s) => Some(s.clone()),
        None => None,
    }
}

} // verus!
