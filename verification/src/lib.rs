//! A runner for declarative browser-automation scripts: JSON documents of
//! named tests, each a flat list of commands with structured control-flow
//! markers (while, if/elseif/else, do/repeatIf, forEach, times, end).
//!
//! The library parses raw command records into commands, validates that
//! every block opens and closes correctly, compiles the flat list into a
//! flow graph with resolved jump targets, and interprets that graph
//! against a variable store, dispatching atomic operations to a driver
//! backend through the [`Webdriver`] capability interface. Reading the
//! JSON document itself, and the driver backends, live outside.

mod command;
mod emit;
mod error;
mod parser;
mod playground;
mod runner;
mod store;
mod strutil;
mod urls;
mod validation;
mod value;
mod webdriver;

pub use command::{
    AnswerOnNextPrompt, Assert, AssertAlert, AssertChecked, AssertConfirmation,
    AssertElementEditable, AssertElementNotEditable, AssertElementNotPresent,
    AssertElementPresent, AssertNotChecked, AssertNotSelectedValue, AssertNotText, AssertPrompt,
    AssertSelectedLabel, AssertSelectedValue, AssertText, AssertTitle, AssertValue, Check,
    ChooseCancelOnNextConfirmation, ChooseCancelOnNextPrompt, ChooseOkOnNextConfirmation, Click,
    ClickAt, Close, DoubleClick, DoubleClickAt, Echo, EditContent, Execute, ExecuteAsync,
    MouseDown, MouseUp, Open, Pause, RemoveSelection, RunScript, Select, SendKeys, SetWindowSize,
    Store, StoreAttribute, StoreJson, StoreText, StoreTitle, StoreValue, StoreXpathCount, Type,
    UnCheck, WaitForElementEditable, WaitForElementNotPresent, WaitForElementNotVisible,
    WaitForElementPresent, WaitForElementVisible,
};
pub use emit::{emit_variables, emit_variables_custom};
pub use error::{ParseError, RunnerError, RunnerErrorKind};
pub use parser::{
    parse, Cmd, Command, File, Location, SelectLocator, SideCommand, SideFile, SideTest, Target,
    Test,
};
pub use playground::{build_nodes, run_commands, Node, Playground, Transition};
pub use runner::Runner;
pub use store::VarStore;
pub use validation::{validate_conditions, State};
pub use value::{ObjEntry, Value, ValueV};
pub use webdriver::{Element, Locator, Webdriver};
