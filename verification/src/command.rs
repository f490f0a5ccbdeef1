use vstd::prelude::*;

use crate::emit::spec_emit_plain;
use crate::error::RunnerErrorKind;
use crate::parser::SelectLocator;
use crate::runner::Runner;
use crate::strutil::{parse_u64, u64_to_string};
use crate::urls::{build_url, resolved_url};
use crate::value::{json_text, spec_json, spec_trim_quotes, trim_quotes, Value, ValueV};
use crate::webdriver::{Element, Locator, Webdriver};
use vstd::string::StringExecFns;

pub mod add_selection;

verus! {

/// How a stored variable reads in an explicit check: its JSON text with the
/// outer quotes stripped, or `undefined` for an unbound name.
pub open spec fn spec_shown(vars: Map<Seq<char>, ValueV>, var: Seq<char>) -> Seq<char> {
    if vars.contains_key(var) {
        spec_trim_quotes(spec_json(vars[var]))
    } else {
        "undefined"@
    }
}

/// A fetched text must equal the expectation; otherwise both sides stand
/// in the failure.
fn expect_eq(actual: String, expected: &String) -> (r: Result<(), RunnerErrorKind>)
    ensures
        r is Ok <==> actual@ == expected@,
        r is Err ==> (r matches Err(RunnerErrorKind::AssertFailed { lhs, rhs }) && lhs@ == actual@
            && rhs@ == expected@),
{
    if crate::strutil::str_eq(actual.as_str(), expected.as_str()) {
        Ok(())
    } else {
        Err(RunnerErrorKind::AssertFailed { lhs: actual, rhs: expected.clone() })
    }
}

/// A fetched text must differ from the expectation; otherwise both sides
/// stand in the failure.
fn expect_ne(actual: String, expected: &String) -> (r: Result<(), RunnerErrorKind>)
    ensures
        r is Ok <==> actual@ != expected@,
        r is Err ==> (r matches Err(RunnerErrorKind::AssertFailed { lhs, rhs }) && lhs@ == actual@
            && rhs@ == expected@),
{
    if !crate::strutil::str_eq(actual.as_str(), expected.as_str()) {
        Ok(())
    } else {
        Err(RunnerErrorKind::AssertFailed { lhs: actual, rhs: expected.clone() })
    }
}

/// A property's text, or empty where the element has none.
fn or_empty(v: Option<String>) -> (r: String)
    ensures
        r@ == (match v {
            Some(s) => s@,
            None => Seq::<char>::empty(),
        }),
{
    match v {
        Some(s) => s,
        None => String::new(),
    }
}

/// Whether a fetched flag property reads exactly `true`.
fn flag_is_true(v: &Option<String>) -> (r: bool)
    ensures
        r == (v matches Some(s) && s@ == "true"@),
{
    match v {
        Some(s) => crate::strutil::str_eq(s.as_str(), "true"),
        None => false,
    }
}

/// A fetched index text as a position: it must be a decimal integer in
/// the machine's range.
fn parse_index(text: &str) -> (r: Result<u64, RunnerErrorKind>)
    ensures
        r matches Ok(i) ==> (crate::strutil::spec_uint_shape(text@) && i as nat
            == crate::strutil::spec_digits_val(crate::strutil::spec_uint_digits(text@))),
        r is Err ==> (r matches Err(RunnerErrorKind::MismatchedType(_))
            && (!crate::strutil::spec_uint_shape(text@) || crate::strutil::spec_digits_val(
            crate::strutil::spec_uint_digits(text@),
        ) > u64::MAX)),
{
    match parse_u64(text) {
        Some(i) => Ok(i),
        None => Err(RunnerErrorKind::MismatchedType("Unexpected type of selectedIndex".to_owned())),
    }
}

/// An option position as the select command reads it: a decimal integer
/// that fits the machine.
fn parse_select_index(text: &str) -> (r: Result<usize, RunnerErrorKind>)
    ensures
        r matches Ok(i) ==> (crate::strutil::spec_uint_shape(text@) && i as nat
            == crate::strutil::spec_digits_val(crate::strutil::spec_uint_digits(text@))),
        r is Err ==> (r matches Err(RunnerErrorKind::MismatchedType(_))
            && (!crate::strutil::spec_uint_shape(text@) || crate::strutil::spec_digits_val(
            crate::strutil::spec_uint_digits(text@),
        ) > usize::MAX)),
{
    match parse_u64(text) {
        Some(i) => {
            if i <= usize::MAX as u64 {
                Ok(i as usize)
            } else {
                Err(RunnerErrorKind::MismatchedType("expected to get int type".to_owned()))
            }
        },
        None => Err(RunnerErrorKind::MismatchedType("expected to get int type".to_owned())),
    }
}

/// The editable check turned around: its own failure is the expected
/// negative signal; any other error passes through unchanged.
fn invert_editable(r0: Result<(), RunnerErrorKind>) -> (r: Result<(), RunnerErrorKind>)
    ensures
        match r0 {
            Ok(_) => (r matches Err(RunnerErrorKind::AssertFailed { lhs, rhs }) && lhs@
                == "true"@ && rhs@ == "false"@),
            Err(e) => if e is AssertFailed {
                r is Ok
            } else {
                (r matches Err(e2) && e2 == e)
            },
        },
{
    proof {
        reveal_strlit("true");
        reveal_strlit("false");
    }
    match r0 {
        Ok(_) => Err(
            RunnerErrorKind::AssertFailed { lhs: "true".to_owned(), rhs: "false".to_owned() },
        ),
        Err(RunnerErrorKind::AssertFailed { .. }) => Ok(()),
        Err(e) => Err(e),
    }
}

/// Arrange for the next prompt to be answered with the given text.
#[derive(Debug)]
pub struct AnswerOnNextPrompt {
    pub answer: String,
}

impl AnswerOnNextPrompt {
    pub fn new(answer: String) -> (r: Self)
        ensures
            r.answer == answer,
    {
        Self { answer }
    }
}

/// Check a stored variable against an expected text.
#[derive(Debug)]
pub struct Assert {
    pub var: String,
    pub value: String,
}

impl Assert {
    pub fn new(var: String, value: String) -> (r: Self)
        ensures
            r.var == var,
            r.value == value,
    {
        Self { var, value }
    }
}

/// Check the open alert's text.
#[derive(Debug)]
pub struct AssertAlert {
    pub text: String,
}

impl AssertAlert {
    pub fn new(text: String) -> (r: Self)
        ensures
            r.text == text,
    {
        Self { text }
    }
}

/// Check the open prompt's text.
#[derive(Debug)]
pub struct AssertPrompt {
    pub text: String,
}

impl AssertPrompt {
    pub fn new(text: String) -> (r: Self)
        ensures
            r.text == text,
    {
        Self { text }
    }
}

/// Check the open confirmation's text.
#[derive(Debug)]
pub struct AssertConfirmation {
    pub text: String,
}

impl AssertConfirmation {
    pub fn new(text: String) -> (r: Self)
        ensures
            r.text == text,
    {
        Self { text }
    }
}

/// Check that a checkbox is checked.
#[derive(Debug)]
pub struct AssertChecked {
    pub target: Locator,
}

impl AssertChecked {
    pub fn new(target: Locator) -> (r: Self)
        ensures
            r.target == target,
    {
        Self { target }
    }
}

/// Check that a checkbox is not checked.
#[derive(Debug)]
pub struct AssertNotChecked {
    pub target: Locator,
}

impl AssertNotChecked {
    pub fn new(target: Locator) -> (r: Self)
        ensures
            r.target == target,
    {
        Self { target }
    }
}

/// Check that an element can be edited.
#[derive(Debug)]
pub struct AssertElementEditable {
    pub target: Locator,
}

impl AssertElementEditable {
    pub fn new(target: Locator) -> (r: Self)
        ensures
            r.target == target,
    {
        Self { target }
    }
}

/// Check that an element cannot be edited.
#[derive(Debug)]
pub struct AssertElementNotEditable {
    pub target: Locator,
}

impl AssertElementNotEditable {
    pub fn new(target: Locator) -> (r: Self)
        ensures
            r.target == target,
    {
        Self { target }
    }
}

/// Check that an element is on the page.
#[derive(Debug)]
pub struct AssertElementPresent {
    pub target: Locator,
}

impl AssertElementPresent {
    pub fn new(target: Locator) -> (r: Self)
        ensures
            r.target == target,
    {
        Self { target }
    }
}

/// Check that an element is not on the page.
#[derive(Debug)]
pub struct AssertElementNotPresent {
    pub target: Locator,
}

impl AssertElementNotPresent {
    pub fn new(target: Locator) -> (r: Self)
        ensures
            r.target == target,
    {
        Self { target }
    }
}

/// Check the label of the selected option.
#[derive(Debug)]
pub struct AssertSelectedLabel {
    pub target: Locator,
    pub text: String,
}

impl AssertSelectedLabel {
    pub fn new(target: Locator, text: String) -> (r: Self)
        ensures
            r.target == target,
            r.text == text,
    {
        Self { target, text }
    }
}

/// Check the value of the selected option.
#[derive(Debug)]
pub struct AssertSelectedValue {
    pub target: Locator,
    pub text: String,
}

impl AssertSelectedValue {
    pub fn new(target: Locator, text: String) -> (r: Self)
        ensures
            r.target == target,
            r.text == text,
    {
        Self { target, text }
    }
}

/// Check the selected option's value differs.
#[derive(Debug)]
pub struct AssertNotSelectedValue {
    pub target: Locator,
    pub text: String,
}

impl AssertNotSelectedValue {
    pub fn new(target: Locator, text: String) -> (r: Self)
        ensures
            r.target == target,
            r.text == text,
    {
        Self { target, text }
    }
}

/// Check an element's text.
#[derive(Debug)]
pub struct AssertText {
    pub target: Locator,
    pub text: String,
}

impl AssertText {
    pub fn new(target: Locator, text: String) -> (r: Self)
        ensures
            r.target == target,
            r.text == text,
    {
        Self { target, text }
    }
}

/// Check an element's text differs.
#[derive(Debug)]
pub struct AssertNotText {
    pub target: Locator,
    pub text: String,
}

impl AssertNotText {
    pub fn new(target: Locator, text: String) -> (r: Self)
        ensures
            r.target == target,
            r.text == text,
    {
        Self { target, text }
    }
}

/// Check the page title.
#[derive(Debug)]
pub struct AssertTitle {
    pub text: String,
}

impl AssertTitle {
    pub fn new(text: String) -> (r: Self)
        ensures
            r.text == text,
    {
        Self { text }
    }
}

/// Check an element's value property.
#[derive(Debug)]
pub struct AssertValue {
    pub target: Locator,
    pub value: String,
}

impl AssertValue {
    pub fn new(target: Locator, value: String) -> (r: Self)
        ensures
            r.target == target,
            r.value == value,
    {
        Self { target, value }
    }
}

/// Select a checkbox if it is not selected yet.
#[derive(Debug)]
pub struct Check {
    pub target: Locator,
}

impl Check {
    pub fn new(target: Locator) -> (r: Self)
        ensures
            r.target == target,
    {
        Self { target }
    }
}

/// Clear a checkbox if it is selected.
#[derive(Debug)]
pub struct UnCheck {
    pub target: Locator,
}

impl UnCheck {
    pub fn new(target: Locator) -> (r: Self)
        ensures
            r.target == target,
    {
        Self { target }
    }
}

/// Arrange for the next confirmation to be cancelled.
#[derive(Debug)]
pub struct ChooseCancelOnNextConfirmation;

/// Arrange for the next confirmation to be accepted.
#[derive(Debug)]
pub struct ChooseOkOnNextConfirmation;

/// Arrange for the next prompt to be cancelled.
#[derive(Debug)]
pub struct ChooseCancelOnNextPrompt;

/// Click an element.
#[derive(Debug)]
pub struct Click {
    pub target: Locator,
}

impl Click {
    pub fn new(target: Locator) -> (r: Self)
        ensures
            r.target == target,
    {
        Self { target }
    }
}

/// Click an element at an offset.
#[derive(Debug)]
pub struct ClickAt {
    pub target: Locator,
    pub coord: (i32, i32),
}

impl ClickAt {
    pub fn new(target: Locator, coord: (i32, i32)) -> (r: Self)
        ensures
            r.target == target,
            r.coord == coord,
    {
        Self { target, coord }
    }
}

/// Close the driver session.
#[derive(Debug)]
pub struct Close;

/// Double-click an element.
#[derive(Debug)]
pub struct DoubleClick {
    pub target: Locator,
}

impl DoubleClick {
    pub fn new(target: Locator) -> (r: Self)
        ensures
            r.target == target,
    {
        Self { target }
    }
}

/// Double-click an element at an offset.
#[derive(Debug)]
pub struct DoubleClickAt {
    pub target: Locator,
    pub coord: (i32, i32),
}

impl DoubleClickAt {
    pub fn new(target: Locator, coord: (i32, i32)) -> (r: Self)
        ensures
            r.target == target,
            r.coord == coord,
    {
        Self { target, coord }
    }
}

/// Write a message, with variables substituted, to the echo log.
#[derive(Debug)]
pub struct Echo {
    pub message: String,
}

impl Echo {
    pub fn new(message: String) -> (r: Self)
        ensures
            r.message == message,
    {
        Self { message }
    }
}

/// Replace an editable element's content.
#[derive(Debug)]
pub struct EditContent {
    pub target: Locator,
    pub text: String,
}

impl EditContent {
    pub fn new(target: Locator, text: String) -> (r: Self)
        ensures
            r.target == target,
            r.text == text,
    {
        Self { target, text }
    }
}

/// Run a script and optionally store its result.
#[derive(Debug)]
pub struct Execute {
    pub script: String,
    pub variable: Option<String>,
}

impl Execute {
    pub fn new(script: String, variable: Option<String>) -> (r: Self)
        ensures
            r.script == script,
            r.variable == variable,
    {
        Self { script, variable }
    }
}

/// Run a script asynchronously and optionally store its result.
#[derive(Debug)]
pub struct ExecuteAsync {
    pub script: String,
    pub variable: Option<String>,
}

impl ExecuteAsync {
    pub fn new(script: String, variable: Option<String>) -> (r: Self)
        ensures
            r.script == script,
            r.variable == variable,
    {
        Self { script, variable }
    }
}

/// Release the mouse button over an element.
#[derive(Debug)]
pub struct MouseUp {
    pub target: Locator,
}

impl MouseUp {
    pub fn new(target: Locator) -> (r: Self)
        ensures
            r.target == target,
    {
        Self { target }
    }
}

/// Press the mouse button over an element.
#[derive(Debug)]
pub struct MouseDown {
    pub target: Locator,
}

impl MouseDown {
    pub fn new(target: Locator) -> (r: Self)
        ensures
            r.target == target,
    {
        Self { target }
    }
}

/// Navigate to an address, resolved against the project's address.
#[derive(Debug)]
pub struct Open {
    pub url: String,
    pub file_url: String,
}

impl Open {
    pub fn new(url: String, file_url: String) -> (r: Self)
        ensures
            r.url == url,
            r.file_url == file_url,
    {
        Self { url, file_url }
    }
}

/// Wait the given number of milliseconds.
#[derive(Debug)]
pub struct Pause {
    pub timeout: u64,
}

impl Pause {
    pub fn new(timeout: u64) -> (r: Self)
        ensures
            r.timeout == timeout,
    {
        Self { timeout }
    }
}

/// Clear one selected option of a select element.
#[derive(Debug)]
pub struct RemoveSelection {
    pub target: Locator,
    pub label: String,
}

impl RemoveSelection {
    pub fn new(target: Locator, label: String) -> (r: Self)
        ensures
            r.target == target,
            r.label == label,
    {
        Self { target, label }
    }
}

/// Run a script, dropping its result.
#[derive(Debug)]
pub struct RunScript {
    pub script: String,
}

impl RunScript {
    pub fn new(script: String) -> (r: Self)
        ensures
            r.script == script,
    {
        Self { script }
    }
}

/// Pick an option of a select element.
#[derive(Debug)]
pub struct Select {
    pub target: Locator,
    pub locator: SelectLocator,
}

impl Select {
    pub fn new(target: Locator, locator: SelectLocator) -> (r: Self)
        ensures
            r.target == target,
            r.locator == locator,
    {
        Self { target, locator }
    }
}

/// Send keystrokes to an element.
#[derive(Debug)]
pub struct SendKeys {
    pub target: Locator,
    pub text: String,
}

impl SendKeys {
    pub fn new(target: Locator, text: String) -> (r: Self)
        ensures
            r.target == target,
            r.text == text,
    {
        Self { target, text }
    }
}

/// Resize the browser window.
#[derive(Debug)]
pub struct SetWindowSize {
    pub width: u32,
    pub height: u32,
}

impl SetWindowSize {
    pub fn new(width: u32, height: u32) -> (r: Self)
        ensures
            r.width == width,
            r.height == height,
    {
        Self { width, height }
    }
}

/// Bind a variable to a literal text.
#[derive(Debug)]
pub struct Store {
    pub variable: String,
    pub value: String,
}

impl Store {
    pub fn new(variable: String, value: String) -> (r: Self)
        ensures
            r.variable == variable,
            r.value == value,
    {
        Self { variable, value }
    }
}

/// Store an element attribute's text.
#[derive(Debug)]
pub struct StoreAttribute {
    pub target: Locator,
    pub attribute: String,
    pub variable: String,
}

impl StoreAttribute {
    pub fn new(target: Locator, attribute: String, variable: String) -> (r: Self)
        ensures
            r.target == target,
            r.attribute == attribute,
            r.variable == variable,
    {
        Self { target, attribute, variable }
    }
}

/// Hold a raw JSON text to bind to a variable.
#[derive(Debug)]
pub struct StoreJson {
    pub value: String,
    pub variable: String,
}

impl StoreJson {
    pub fn new(value: String, variable: String) -> (r: Self)
        ensures
            r.value == value,
            r.variable == variable,
    {
        Self { value, variable }
    }
}

/// Store an element's text.
#[derive(Debug)]
pub struct StoreText {
    pub target: Locator,
    pub variable: String,
}

impl StoreText {
    pub fn new(target: Locator, variable: String) -> (r: Self)
        ensures
            r.target == target,
            r.variable == variable,
    {
        Self { target, variable }
    }
}

/// Store the page title.
#[derive(Debug)]
pub struct StoreTitle {
    pub variable: String,
}

impl StoreTitle {
    pub fn new(variable: String) -> (r: Self)
        ensures
            r.variable == variable,
    {
        Self { variable }
    }
}

/// Store an element's value property.
#[derive(Debug)]
pub struct StoreValue {
    pub target: Locator,
    pub variable: String,
}

impl StoreValue {
    pub fn new(target: Locator, variable: String) -> (r: Self)
        ensures
            r.target == target,
            r.variable == variable,
    {
        Self { target, variable }
    }
}

/// Store how many elements an XPath finds.
#[derive(Debug)]
pub struct StoreXpathCount {
    pub xpath: String,
    pub variable: Option<String>,
}

impl StoreXpathCount {
    pub fn new(xpath: String, variable: Option<String>) -> (r: Self)
        ensures
            r.xpath == xpath,
            r.variable == variable,
    {
        Self { xpath, variable }
    }
}

/// Type a text into an element.
#[derive(Debug)]
pub struct Type {
    pub target: Locator,
    pub text: String,
}

impl Type {
    pub fn new(target: Locator, text: String) -> (r: Self)
        ensures
            r.target == target,
            r.text == text,
    {
        Self { target, text }
    }
}

/// Wait until an element is visible.
#[derive(Debug)]
pub struct WaitForElementVisible {
    pub target: Locator,
    pub timeout: u64,
}

impl WaitForElementVisible {
    pub fn new(target: Locator, timeout: u64) -> (r: Self)
        ensures
            r.target == target,
            r.timeout == timeout,
    {
        Self { target, timeout }
    }
}

/// Wait until an element is not visible.
#[derive(Debug)]
pub struct WaitForElementNotVisible {
    pub target: Locator,
    pub timeout: u64,
}

impl WaitForElementNotVisible {
    pub fn new(target: Locator, timeout: u64) -> (r: Self)
        ensures
            r.target == target,
            r.timeout == timeout,
    {
        Self { target, timeout }
    }
}

/// Wait until an element can be edited.
#[derive(Debug)]
pub struct WaitForElementEditable {
    pub target: Locator,
    pub timeout: u64,
}

impl WaitForElementEditable {
    pub fn new(target: Locator, timeout: u64) -> (r: Self)
        ensures
            r.target == target,
            r.timeout == timeout,
    {
        Self { target, timeout }
    }
}

/// Wait until an element is gone.
#[derive(Debug)]
pub struct WaitForElementNotPresent {
    pub target: Locator,
    pub timeout: u64,
}

impl WaitForElementNotPresent {
    pub fn new(target: Locator, timeout: u64) -> (r: Self)
        ensures
            r.target == target,
            r.timeout == timeout,
    {
        Self { target, timeout }
    }
}

/// Wait until an element is on the page.
#[derive(Debug)]
pub struct WaitForElementPresent {
    pub target: Locator,
    pub timeout: u64,
}

impl WaitForElementPresent {
    pub fn new(target: Locator, timeout: u64) -> (r: Self)
        ensures
            r.target == target,
            r.timeout == timeout,
    {
        Self { target, timeout }
    }
}

impl Click {
    /// Find the element and click it.
    pub fn run<D: Webdriver>(&self, runner: &mut Runner<D>) -> (r: Result<(), RunnerErrorKind>)
        ensures
            final(runner).vars() == old(runner).vars(),
            final(runner).echoes_log() == old(runner).echoes_log(),
            final(runner).results_log() == old(runner).results_log(),
    {
        let e = runner.webdriver.find(self.target.clone())?;
        e.click()?;
        Ok(())
    }
}

impl ClickAt {
    /// Click the element at the stored offset.
    pub fn run<D: Webdriver>(&self, runner: &mut Runner<D>) -> (r: Result<(), RunnerErrorKind>)
        ensures
            final(runner).vars() == old(runner).vars(),
            final(runner).echoes_log() == old(runner).echoes_log(),
            final(runner).results_log() == old(runner).results_log(),
    {
        runner.webdriver.click_at(self.target.clone(), self.coord)?;
        Ok(())
    }
}

impl Close {
    /// Close the driver session.
    pub fn run<D: Webdriver>(&self, runner: &mut Runner<D>) -> (r: Result<(), RunnerErrorKind>)
        ensures
            final(runner).vars() == old(runner).vars(),
            final(runner).echoes_log() == old(runner).echoes_log(),
            final(runner).results_log() == old(runner).results_log(),
    {
        runner.webdriver.close()?;
        Ok(())
    }
}

impl DoubleClick {
    /// Double-click the element.
    pub fn run<D: Webdriver>(&self, runner: &mut Runner<D>) -> (r: Result<(), RunnerErrorKind>)
        ensures
            final(runner).vars() == old(runner).vars(),
            final(runner).echoes_log() == old(runner).echoes_log(),
            final(runner).results_log() == old(runner).results_log(),
    {
        runner.webdriver.double_click(self.target.clone())?;
        Ok(())
    }
}

impl DoubleClickAt {
    /// Double-click the element at the stored offset.
    pub fn run<D: Webdriver>(&self, runner: &mut Runner<D>) -> (r: Result<(), RunnerErrorKind>)
        ensures
            final(runner).vars() == old(runner).vars(),
            final(runner).echoes_log() == old(runner).echoes_log(),
            final(runner).results_log() == old(runner).results_log(),
    {
        runner.webdriver.double_click_at(self.target.clone(), self.coord)?;
        Ok(())
    }
}

impl MouseUp {
    /// Release the mouse button over the element.
    pub fn run<D: Webdriver>(&self, runner: &mut Runner<D>) -> (r: Result<(), RunnerErrorKind>)
        ensures
            final(runner).vars() == old(runner).vars(),
            final(runner).echoes_log() == old(runner).echoes_log(),
            final(runner).results_log() == old(runner).results_log(),
    {
        runner.webdriver.mouse_up(self.target.clone())?;
        Ok(())
    }
}

impl MouseDown {
    /// Press the mouse button over the element.
    pub fn run<D: Webdriver>(&self, runner: &mut Runner<D>) -> (r: Result<(), RunnerErrorKind>)
        ensures
            final(runner).vars() == old(runner).vars(),
            final(runner).echoes_log() == old(runner).echoes_log(),
            final(runner).results_log() == old(runner).results_log(),
    {
        runner.webdriver.mouse_down(self.target.clone())?;
        Ok(())
    }
}

impl SetWindowSize {
    /// Resize the browser window.
    pub fn run<D: Webdriver>(&self, runner: &mut Runner<D>) -> (r: Result<(), RunnerErrorKind>)
        ensures
            final(runner).vars() == old(runner).vars(),
            final(runner).echoes_log() == old(runner).echoes_log(),
            final(runner).results_log() == old(runner).results_log(),
    {
        runner.webdriver.set_window_size(self.width, self.height)?;
        Ok(())
    }
}

impl Pause {
    /// Wait the stored number of milliseconds.
    pub fn run<D: Webdriver>(&self, runner: &mut Runner<D>) -> (r: Result<(), RunnerErrorKind>)
        ensures
            final(runner).vars() == old(runner).vars(),
            final(runner).echoes_log() == old(runner).echoes_log(),
            final(runner).results_log() == old(runner).results_log(),
    {
        runner.webdriver.pause(self.timeout);
        Ok(())
    }
}

impl WaitForElementVisible {
    /// Wait until the element is visible.
    pub fn run<D: Webdriver>(&self, runner: &mut Runner<D>) -> (r: Result<(), RunnerErrorKind>)
        ensures
            final(runner).vars() == old(runner).vars(),
            final(runner).echoes_log() == old(runner).echoes_log(),
            final(runner).results_log() == old(runner).results_log(),
    {
        runner.webdriver.wait_for_visible(self.target.clone(), self.timeout)?;
        Ok(())
    }
}

impl WaitForElementNotVisible {
    /// Wait until the element is not visible.
    pub fn run<D: Webdriver>(&self, runner: &mut Runner<D>) -> (r: Result<(), RunnerErrorKind>)
        ensures
            final(runner).vars() == old(runner).vars(),
            final(runner).echoes_log() == old(runner).echoes_log(),
            final(runner).results_log() == old(runner).results_log(),
    {
        runner.webdriver.wait_for_not_visible(self.target.clone(), self.timeout)?;
        Ok(())
    }
}

impl WaitForElementEditable {
    /// Wait until the element can be edited; expiry names the wait.
    pub fn run<D: Webdriver>(&self, runner: &mut Runner<D>) -> (r: Result<(), RunnerErrorKind>)
        ensures
            final(runner).vars() == old(runner).vars(),
            final(runner).echoes_log() == old(runner).echoes_log(),
            final(runner).results_log() == old(runner).results_log(),
    {
        match runner.webdriver.wait_for_editable(self.target.clone(), self.timeout) {
            Ok(_) => Ok(()),
            Err(_) => Err(RunnerErrorKind::Timeout("WaitForElementEditable".to_owned())),
        }
    }
}

impl WaitForElementNotPresent {
    /// Wait until the element is gone; expiry names the wait.
    pub fn run<D: Webdriver>(&self, runner: &mut Runner<D>) -> (r: Result<(), RunnerErrorKind>)
        ensures
            final(runner).vars() == old(runner).vars(),
            final(runner).echoes_log() == old(runner).echoes_log(),
            final(runner).results_log() == old(runner).results_log(),
    {
        match runner.webdriver.wait_for_not_present(self.target.clone(), self.timeout) {
            Ok(_) => Ok(()),
            Err(_) => Err(RunnerErrorKind::Timeout("WaitForElementNotPresent".to_owned())),
        }
    }
}

impl WaitForElementPresent {
    /// Wait until the element is on the page; expiry names the wait.
    pub fn run<D: Webdriver>(&self, runner: &mut Runner<D>) -> (r: Result<(), RunnerErrorKind>)
        ensures
            final(runner).vars() == old(runner).vars(),
            final(runner).echoes_log() == old(runner).echoes_log(),
            final(runner).results_log() == old(runner).results_log(),
    {
        match runner.webdriver.wait_for_present(self.target.clone(), self.timeout) {
            Ok(_) => Ok(()),
            Err(_) => Err(RunnerErrorKind::Timeout("WaitForElementPresent".to_owned())),
        }
    }
}

impl SendKeys {
    /// Send the stored keystrokes to the element.
    pub fn run<D: Webdriver>(&self, runner: &mut Runner<D>) -> (r: Result<(), RunnerErrorKind>)
        ensures
            final(runner).vars() == old(runner).vars(),
            final(runner).echoes_log() == old(runner).echoes_log(),
            final(runner).results_log() == old(runner).results_log(),
    {
        let element = runner.webdriver.find(self.target.clone())?;
        element.send_keys(self.text.as_str())?;
        Ok(())
    }
}

impl Type {
    /// Type the stored text into the element.
    pub fn run<D: Webdriver>(&self, runner: &mut Runner<D>) -> (r: Result<(), RunnerErrorKind>)
        ensures
            final(runner).vars() == old(runner).vars(),
            final(runner).echoes_log() == old(runner).echoes_log(),
            final(runner).results_log() == old(runner).results_log(),
    {
        let element = runner.webdriver.find(self.target.clone())?;
        element.send_keys(self.text.as_str())?;
        Ok(())
    }
}

impl EditContent {
    /// Replace the element's content with the stored text.
    pub fn run<D: Webdriver>(&self, runner: &mut Runner<D>) -> (r: Result<(), RunnerErrorKind>)
        ensures
            final(runner).vars() == old(runner).vars(),
            final(runner).echoes_log() == old(runner).echoes_log(),
            final(runner).results_log() == old(runner).results_log(),
    {
        let element = runner.webdriver.find(self.target.clone())?;
        element.send_keys(self.text.as_str())?;
        Ok(())
    }
}

impl Check {
    /// Click the checkbox unless it is already selected.
    pub fn run<D: Webdriver>(&self, runner: &mut Runner<D>) -> (r: Result<(), RunnerErrorKind>)
        ensures
            final(runner).vars() == old(runner).vars(),
            final(runner).echoes_log() == old(runner).echoes_log(),
            final(runner).results_log() == old(runner).results_log(),
    {
        let mut e = runner.webdriver.find(self.target.clone())?;
        let selected = e.prop("selected")?;
        if selected.is_none() {
            e.click()?;
        }
        Ok(())
    }
}

impl UnCheck {
    /// Click the checkbox if it is selected.
    pub fn run<D: Webdriver>(&self, runner: &mut Runner<D>) -> (r: Result<(), RunnerErrorKind>)
        ensures
            final(runner).vars() == old(runner).vars(),
            final(runner).echoes_log() == old(runner).echoes_log(),
            final(runner).results_log() == old(runner).results_log(),
    {
        let mut e = runner.webdriver.find(self.target.clone())?;
        let selected = e.prop("selected")?;
        if selected.is_some() {
            e.click()?;
        }
        Ok(())
    }
}

impl AssertChecked {
    /// The element's checked property must read true.
    pub fn run<D: Webdriver>(&self, runner: &mut Runner<D>) -> (r: Result<(), RunnerErrorKind>)
        ensures
            final(runner).vars() == old(runner).vars(),
            final(runner).echoes_log() == old(runner).echoes_log(),
            final(runner).results_log() == old(runner).results_log(),
    {
        let mut element = runner.webdriver.find(self.target.clone())?;
        let checked = element.prop("checked")?;
        if flag_is_true(&checked) {
            Ok(())
        } else {
            Err(
                RunnerErrorKind::AssertFailed {
                    lhs: "Checked".to_owned(),
                    rhs: "Not checked".to_owned(),
                },
            )
        }
    }
}

impl AssertNotChecked {
    /// The element's checked property must not read true.
    pub fn run<D: Webdriver>(&self, runner: &mut Runner<D>) -> (r: Result<(), RunnerErrorKind>)
        ensures
            final(runner).vars() == old(runner).vars(),
            final(runner).echoes_log() == old(runner).echoes_log(),
            final(runner).results_log() == old(runner).results_log(),
    {
        let mut element = runner.webdriver.find(self.target.clone())?;
        let checked = element.prop("checked")?;
        if flag_is_true(&checked) {
            Err(
                RunnerErrorKind::AssertFailed {
                    lhs: "Not checked".to_owned(),
                    rhs: "Checked".to_owned(),
                },
            )
        } else {
            Ok(())
        }
    }
}

impl AssertElementEditable {
    /// The element must be enabled and carry a readonly marker.
    pub fn run<D: Webdriver>(&self, runner: &mut Runner<D>) -> (r: Result<(), RunnerErrorKind>)
        ensures
            final(runner).vars() == old(runner).vars(),
            final(runner).echoes_log() == old(runner).echoes_log(),
            final(runner).results_log() == old(runner).results_log(),
    {
        let mut el = runner.webdriver.find(self.target.clone())?;
        if !el.is_enabled()? {
            return Err(
                RunnerErrorKind::AssertFailed { lhs: "false".to_owned(), rhs: "true".to_owned() },
            );
        }
        let is_readonly = el.attr("readonly")?;
        match is_readonly {
            Some(s) => {
                if crate::strutil::str_eq(s.as_str(), "false") {
                    Err(
                        RunnerErrorKind::AssertFailed {
                            lhs: "false".to_owned(),
                            rhs: "true".to_owned(),
                        },
                    )
                } else {
                    Ok(())
                }
            },
            None => Err(
                RunnerErrorKind::AssertFailed { lhs: "false".to_owned(), rhs: "true".to_owned() },
            ),
        }
    }
}

impl AssertElementNotEditable {
    /// The editable check must fail with its own negative signal.
    pub fn run<D: Webdriver>(&self, runner: &mut Runner<D>) -> (r: Result<(), RunnerErrorKind>)
        ensures
            final(runner).vars() == old(runner).vars(),
            final(runner).echoes_log() == old(runner).echoes_log(),
            final(runner).results_log() == old(runner).results_log(),
    {
        let checked = AssertElementEditable::new(self.target.clone()).run(runner);
        invert_editable(checked)
    }
}

impl AssertElementPresent {
    /// The element must be on the page.
    pub fn run<D: Webdriver>(&self, runner: &mut Runner<D>) -> (r: Result<(), RunnerErrorKind>)
        ensures
            final(runner).vars() == old(runner).vars(),
            final(runner).echoes_log() == old(runner).echoes_log(),
            final(runner).results_log() == old(runner).results_log(),
    {
        let mut e = runner.webdriver.find(self.target.clone())?;
        let is_present = e.is_present()?;
        if !is_present {
            return Err(
                RunnerErrorKind::AssertFailed { lhs: "false".to_owned(), rhs: "true".to_owned() },
            );
        }
        Ok(())
    }
}

impl AssertElementNotPresent {
    /// The element must not be on the page.
    pub fn run<D: Webdriver>(&self, runner: &mut Runner<D>) -> (r: Result<(), RunnerErrorKind>)
        ensures
            final(runner).vars() == old(runner).vars(),
            final(runner).echoes_log() == old(runner).echoes_log(),
            final(runner).results_log() == old(runner).results_log(),
    {
        let mut e = runner.webdriver.find(self.target.clone())?;
        let is_present = e.is_present()?;
        if is_present {
            return Err(
                RunnerErrorKind::AssertFailed { lhs: "true".to_owned(), rhs: "false".to_owned() },
            );
        }
        Ok(())
    }
}

impl AssertText {
    /// The element's text must equal the expectation.
    pub fn run<D: Webdriver>(&self, runner: &mut Runner<D>) -> (r: Result<(), RunnerErrorKind>)
        ensures
            final(runner).vars() == old(runner).vars(),
            final(runner).echoes_log() == old(runner).echoes_log(),
            final(runner).results_log() == old(runner).results_log(),
    {
        let mut element = runner.webdriver.find(self.target.clone())?;
        let element_text = element.text()?;
        expect_eq(element_text, &self.text)
    }
}

impl AssertNotText {
    /// The element's text must differ from the expectation.
    pub fn run<D: Webdriver>(&self, runner: &mut Runner<D>) -> (r: Result<(), RunnerErrorKind>)
        ensures
            final(runner).vars() == old(runner).vars(),
            final(runner).echoes_log() == old(runner).echoes_log(),
            final(runner).results_log() == old(runner).results_log(),
    {
        let mut element = runner.webdriver.find(self.target.clone())?;
        let element_text = element.text()?;
        expect_ne(element_text, &self.text)
    }
}

impl AssertTitle {
    /// The page title must equal the expectation.
    pub fn run<D: Webdriver>(&self, runner: &mut Runner<D>) -> (r: Result<(), RunnerErrorKind>)
        ensures
            final(runner).vars() == old(runner).vars(),
            final(runner).echoes_log() == old(runner).echoes_log(),
            final(runner).results_log() == old(runner).results_log(),
    {
        let title = runner.webdriver.title()?;
        expect_eq(title, &self.text)
    }
}

impl AssertValue {
    /// The element's value property must equal the expectation.
    pub fn run<D: Webdriver>(&self, runner: &mut Runner<D>) -> (r: Result<(), RunnerErrorKind>)
        ensures
            final(runner).vars() == old(runner).vars(),
            final(runner).echoes_log() == old(runner).echoes_log(),
            final(runner).results_log() == old(runner).results_log(),
    {
        let mut element = runner.webdriver.find(self.target.clone())?;
        let value = or_empty(element.prop("value")?);
        expect_eq(value, &self.value)
    }
}

impl AssertSelectedValue {
    /// The selected option's value must equal the expectation.
    pub fn run<D: Webdriver>(&self, runner: &mut Runner<D>) -> (r: Result<(), RunnerErrorKind>)
        ensures
            final(runner).vars() == old(runner).vars(),
            final(runner).echoes_log() == old(runner).echoes_log(),
            final(runner).results_log() == old(runner).results_log(),
    {
        let mut el = runner.webdriver.find(self.target.clone())?;
        let value = or_empty(el.prop("value")?);
        expect_eq(value, &self.text)
    }
}

impl AssertNotSelectedValue {
    /// The selected option's value must differ from the expectation.
    pub fn run<D: Webdriver>(&self, runner: &mut Runner<D>) -> (r: Result<(), RunnerErrorKind>)
        ensures
            final(runner).vars() == old(runner).vars(),
            final(runner).echoes_log() == old(runner).echoes_log(),
            final(runner).results_log() == old(runner).results_log(),
    {
        let mut el = runner.webdriver.find(self.target.clone())?;
        let value = or_empty(el.prop("value")?);
        expect_ne(value, &self.text)
    }
}

impl AssertAlert {
    /// The open alert's text must equal the expectation.
    pub fn run<D: Webdriver>(&self, runner: &mut Runner<D>) -> (r: Result<(), RunnerErrorKind>)
        ensures
            final(runner).vars() == old(runner).vars(),
            final(runner).echoes_log() == old(runner).echoes_log(),
            final(runner).results_log() == old(runner).results_log(),
    {
        let alert = runner.webdriver.alert_text()?;
        expect_eq(alert, &self.text)
    }
}

impl AssertPrompt {
    /// The open prompt's text must equal the expectation.
    pub fn run<D: Webdriver>(&self, runner: &mut Runner<D>) -> (r: Result<(), RunnerErrorKind>)
        ensures
            final(runner).vars() == old(runner).vars(),
            final(runner).echoes_log() == old(runner).echoes_log(),
            final(runner).results_log() == old(runner).results_log(),
    {
        let alert = runner.webdriver.alert_text()?;
        expect_eq(alert, &self.text)
    }
}

impl AssertConfirmation {
    /// The open confirmation's text must equal the expectation.
    pub fn run<D: Webdriver>(&self, runner: &mut Runner<D>) -> (r: Result<(), RunnerErrorKind>)
        ensures
            final(runner).vars() == old(runner).vars(),
            final(runner).echoes_log() == old(runner).echoes_log(),
            final(runner).results_log() == old(runner).results_log(),
    {
        let alert = runner.webdriver.alert_text()?;
        expect_eq(alert, &self.text)
    }
}

impl AssertSelectedLabel {
    /// The selected option's label must equal the expectation.
    pub fn run<D: Webdriver>(&self, runner: &mut Runner<D>) -> (r: Result<(), RunnerErrorKind>)
        ensures
            final(runner).vars() == old(runner).vars(),
            final(runner).echoes_log() == old(runner).echoes_log(),
            final(runner).results_log() == old(runner).results_log(),
    {
        let mut el = runner.webdriver.find(self.target.clone())?;
        match el.prop("selectedIndex")? {
            Some(index) => {
                let index = parse_index(index.as_str())?;
                if index >= u64::MAX {
                    return Err(
                        RunnerErrorKind::MismatchedType(
                            "Unexpected type of selectedIndex".to_owned(),
                        ),
                    );
                }
                let mut loc = "option:nth-child(".to_owned();
                let num = u64_to_string(index + 1);
                loc.append(num.as_str());
                loc.append(")");
                let mut option = el.find(Locator::Css(loc))?;
                let option_label = option.text()?;
                expect_eq(option_label, &self.text)
            },
            None => Err(
                RunnerErrorKind::AssertFailed { lhs: String::new(), rhs: self.text.clone() },
            ),
        }
    }
}

impl RemoveSelection {
    /// Click the labelled option if it is selected.
    pub fn run<D: Webdriver>(&self, runner: &mut Runner<D>) -> (r: Result<(), RunnerErrorKind>)
        ensures
            final(runner).vars() == old(runner).vars(),
            final(runner).echoes_log() == old(runner).echoes_log(),
            final(runner).results_log() == old(runner).results_log(),
    {
        let mut select = runner.webdriver.find(self.target.clone())?;
        let label = runner.emit(self.label.as_str());
        let mut loc = ".//*[normalize-space(.)='".to_owned();
        loc.append(label.as_str());
        loc.append("']");
        let mut opt = select.find(Locator::XPath(loc))?;
        if opt.is_selected()? {
            opt.click()?;
        }
        Ok(())
    }
}

impl Select {
    /// Pick the option the stored strategy names.
    pub fn run<D: Webdriver>(&self, runner: &mut Runner<D>) -> (r: Result<(), RunnerErrorKind>)
        ensures
            final(runner).vars() == old(runner).vars(),
            final(runner).echoes_log() == old(runner).echoes_log(),
            final(runner).results_log() == old(runner).results_log(),
    {
        let mut select = runner.webdriver.find(self.target.clone())?;
        match &self.locator {
            SelectLocator::Index(index) => {
                let index = runner.emit(index.as_str());
                let i = parse_select_index(index.as_str())?;
                select.select_by_index(i)?;
                Ok(())
            },
            SelectLocator::Value(value) => {
                let value = runner.emit(value.as_str());
                select.select_by_value(value.as_str())?;
                Ok(())
            },
            SelectLocator::Id(id) => {
                let id = runner.emit(id.as_str());
                let mut loc = "option[id='".to_owned();
                loc.append(id.as_str());
                loc.append("']");
                let mut opt = select.find(Locator::Css(loc))?;
                let selected = opt.prop("selected")?;
                if selected.is_none() {
                    opt.click()?;
                }
                Ok(())
            },
            SelectLocator::Label(label) => {
                let label = runner.emit(label.as_str());
                let mut loc = ".//*[normalize-space(.)='".to_owned();
                loc.append(label.as_str());
                loc.append("']");
                let mut opt = select.find(Locator::XPath(loc))?;
                if !opt.is_selected()? {
                    opt.click()?;
                }
                Ok(())
            },
        }
    }
}

impl StoreAttribute {
    /// Store the attribute's text under the stored name.
    pub fn run<D: Webdriver>(&self, runner: &mut Runner<D>) -> (r: Result<(), RunnerErrorKind>)
        ensures
            final(runner).echoes_log() == old(runner).echoes_log(),
            final(runner).results_log() == old(runner).results_log(),
    {
        let mut e = runner.webdriver.find(self.target.clone())?;
        let value = match e.attr(self.attribute.as_str())? {
            Some(v) => v,
            None => String::new(),
        };
        runner.save_value(self.variable.clone(), Value::Str(value));
        Ok(())
    }
}

impl StoreText {
    /// Store the element's text under the stored name.
    pub fn run<D: Webdriver>(&self, runner: &mut Runner<D>) -> (r: Result<(), RunnerErrorKind>)
        ensures
            final(runner).echoes_log() == old(runner).echoes_log(),
            final(runner).results_log() == old(runner).results_log(),
    {
        let mut e = runner.webdriver.find(self.target.clone())?;
        let value = e.text()?;
        runner.save_value(self.variable.clone(), Value::Str(value));
        Ok(())
    }
}

impl StoreTitle {
    /// Store the page title under the stored name.
    pub fn run<D: Webdriver>(&self, runner: &mut Runner<D>) -> (r: Result<(), RunnerErrorKind>)
        ensures
            final(runner).echoes_log() == old(runner).echoes_log(),
            final(runner).results_log() == old(runner).results_log(),
    {
        let value = runner.webdriver.title()?;
        runner.save_value(self.variable.clone(), Value::Str(value));
        Ok(())
    }
}

impl StoreValue {
    /// Store the element's value property under the stored name.
    pub fn run<D: Webdriver>(&self, runner: &mut Runner<D>) -> (r: Result<(), RunnerErrorKind>)
        ensures
            final(runner).echoes_log() == old(runner).echoes_log(),
            final(runner).results_log() == old(runner).results_log(),
    {
        let mut e = runner.webdriver.find(self.target.clone())?;
        let value = match e.prop("value")? {
            Some(v) => v,
            None => String::new(),
        };
        runner.save_value(self.variable.clone(), Value::Str(value));
        Ok(())
    }
}

impl StoreXpathCount {
    /// Store how many elements the XPath finds, if a name is given.
    pub fn run<D: Webdriver>(&self, runner: &mut Runner<D>) -> (r: Result<(), RunnerErrorKind>)
        ensures
            final(runner).echoes_log() == old(runner).echoes_log(),
            final(runner).results_log() == old(runner).results_log(),
    {
        let elements = runner.webdriver.find_all(Locator::XPath(self.xpath.clone()))?;
        let n = elements.len();
        let count: i64 = if n as u64 <= i64::MAX as u64 {
            n as i64
        } else {
            i64::MAX
        };
        match &self.variable {
            Some(var) => {
                runner.save_value(var.clone(), Value::Num(count));
            },
            None => {},
        }
        Ok(())
    }
}

impl AnswerOnNextPrompt {
    /// Install the answer for the next prompt through a script.
    pub fn run<D: Webdriver>(&self, runner: &mut Runner<D>) -> (r: Result<(), RunnerErrorKind>)
        ensures
            final(runner).vars() == old(runner).vars(),
            final(runner).echoes_log() == old(runner).echoes_log(),
            old(runner).results_log().is_prefix_of(final(runner).results_log()),
    {
        let mut code = "replaceAlertMethod(null); answerOnNextPrompt(\"".to_owned();
        let mut escaped = String::new();
        crate::value::json_escape_into(self.answer.as_str(), &mut escaped);
        code.append(escaped.as_str());
        code.append("\");");
        let _ = runner.exec(code.as_str())?;
        Ok(())
    }
}

impl ChooseCancelOnNextConfirmation {
    /// Arrange for the next confirmation to be cancelled through a script.
    pub fn run<D: Webdriver>(&self, runner: &mut Runner<D>) -> (r: Result<(), RunnerErrorKind>)
        ensures
            final(runner).vars() == old(runner).vars(),
            final(runner).echoes_log() == old(runner).echoes_log(),
            old(runner).results_log().is_prefix_of(final(runner).results_log()),
    {
        let _ = runner.exec("replaceAlertMethod(null); setNextConfirmationState(false);")?;
        Ok(())
    }
}

impl ChooseOkOnNextConfirmation {
    /// Arrange for the next confirmation to be accepted through a script.
    pub fn run<D: Webdriver>(&self, runner: &mut Runner<D>) -> (r: Result<(), RunnerErrorKind>)
        ensures
            final(runner).vars() == old(runner).vars(),
            final(runner).echoes_log() == old(runner).echoes_log(),
            old(runner).results_log().is_prefix_of(final(runner).results_log()),
    {
        let _ = runner.exec("replaceAlertMethod(null); setNextConfirmationState(true);")?;
        Ok(())
    }
}

impl ChooseCancelOnNextPrompt {
    /// Arrange for the next prompt to be cancelled through a script.
    pub fn run<D: Webdriver>(&self, runner: &mut Runner<D>) -> (r: Result<(), RunnerErrorKind>)
        ensures
            final(runner).vars() == old(runner).vars(),
            final(runner).echoes_log() == old(runner).echoes_log(),
            old(runner).results_log().is_prefix_of(final(runner).results_log()),
    {
        let _ = runner.exec("replaceAlertMethod(null); setNextPromptState(false);")?;
        Ok(())
    }
}

impl Echo {
    /// Substitute variables into the message and append it to the log.
    pub fn run<D: Webdriver>(&self, runner: &mut Runner<D>) -> (r: Result<(), RunnerErrorKind>)
        ensures
            r is Ok,
            final(runner).vars() == old(runner).vars(),
            final(runner).echoes_log() == old(runner).echoes_log().push(
                spec_emit_plain(self.message@, old(runner).vars()),
            ),
            final(runner).results_log() == old(runner).results_log(),
    {
        let message = runner.emit(self.message.as_str());
        runner.echo(message.as_str());
        Ok(())
    }
}

impl Store {
    /// Bind the variable to the literal text.
    pub fn run<D: Webdriver>(&self, runner: &mut Runner<D>) -> (r: Result<(), RunnerErrorKind>)
        ensures
            r is Ok,
            final(runner).vars() == old(runner).vars().insert(
                self.variable@,
                ValueV::Str(self.value@),
            ),
            final(runner).echoes_log() == old(runner).echoes_log(),
            final(runner).results_log() == old(runner).results_log(),
    {
        runner.save_value(self.variable.clone(), Value::Str(self.value.clone()));
        Ok(())
    }
}

impl Assert {
    /// The stored variable, shown as trimmed JSON text, must equal the
    /// expectation; an unbound variable shows as `undefined`.
    pub fn run<D: Webdriver>(&self, runner: &mut Runner<D>) -> (r: Result<(), RunnerErrorKind>)
        ensures
            final(runner).vars() == old(runner).vars(),
            final(runner).echoes_log() == old(runner).echoes_log(),
            final(runner).results_log() == old(runner).results_log(),
            r is Ok <==> spec_shown(old(runner).vars(), self.var@) == self.value@,
            r is Err ==> (r matches Err(RunnerErrorKind::AssertFailed { lhs, rhs }) && lhs@
                == spec_shown(old(runner).vars(), self.var@) && rhs@ == self.value@),
    {
        let shown = match runner.get_value(self.var.as_str()) {
            Some(v) => {
                let rendered = json_text(v);
                trim_quotes(rendered.as_str())
            },
            None => "undefined".to_owned(),
        };
        if crate::strutil::str_eq(shown.as_str(), self.value.as_str()) {
            Ok(())
        } else {
            Err(RunnerErrorKind::AssertFailed { lhs: shown, rhs: self.value.clone() })
        }
    }
}

impl Open {
    /// Resolve the address against the project's address and navigate.
    pub fn run<D: Webdriver>(&self, runner: &mut Runner<D>) -> (r: Result<(), RunnerErrorKind>)
        ensures
            final(runner).vars() == old(runner).vars(),
            final(runner).echoes_log() == old(runner).echoes_log(),
            final(runner).results_log() == old(runner).results_log(),
            resolved_url(
                self.file_url@,
                spec_emit_plain(self.url@, old(runner).vars()),
            ) is None ==> r matches Err(RunnerErrorKind::Url(_)),
    {
        let url = runner.emit(self.url.as_str());
        match build_url(self.file_url.as_str(), url.as_str()) {
            Ok(u) => {
                runner.webdriver.goto(u.as_str())?;
                Ok(())
            },
            Err(e) => Err(RunnerErrorKind::Url(e)),
        }
    }
}

impl Execute {
    /// Run the script; a named result lands in the store.
    pub fn run<D: Webdriver>(&self, runner: &mut Runner<D>) -> (r: Result<(), RunnerErrorKind>)
        ensures
            final(runner).echoes_log() == old(runner).echoes_log(),
            old(runner).results_log().is_prefix_of(final(runner).results_log()),
            self.variable is None ==> final(runner).vars() == old(runner).vars(),
    {
        let res = runner.exec(self.script.as_str())?;
        match &self.variable {
            Some(var) => {
                runner.save_value(var.clone(), res);
            },
            None => {},
        }
        Ok(())
    }
}

impl ExecuteAsync {
    /// Run the script asynchronously; a named result lands in the store.
    pub fn run<D: Webdriver>(&self, runner: &mut Runner<D>) -> (r: Result<(), RunnerErrorKind>)
        ensures
            final(runner).echoes_log() == old(runner).echoes_log(),
            old(runner).results_log().is_prefix_of(final(runner).results_log()),
            self.variable is None ==> final(runner).vars() == old(runner).vars(),
    {
        let res = runner.exec_async(self.script.as_str())?;
        match &self.variable {
            Some(var) => {
                runner.save_value(var.clone(), res);
            },
            None => {},
        }
        Ok(())
    }
}

impl RunScript {
    /// Run the script and drop its result.
    pub fn run<D: Webdriver>(&self, runner: &mut Runner<D>) -> (r: Result<(), RunnerErrorKind>)
        ensures
            final(runner).vars() == old(runner).vars(),
            final(runner).echoes_log() == old(runner).echoes_log(),
            old(runner).results_log().is_prefix_of(final(runner).results_log()),
    {
        Execute::new(self.script.clone(), None).run(runner)
    }
}

} // verus!
