use vstd::prelude::*;

use crate::error::RunnerErrorKind;
use crate::value::Value;

verus! {

/// A way to tell the driver how to find a page element.
#[derive(Debug, Clone, PartialEq, Eq, Hash)]
pub enum Locator {
    Css(String),
    Id(String),
    LinkText(String),
    XPath(String),
}

/// What can be done with one found page element. The engine asks for no
/// promises here: a driver may fail any call, and the engine states what
/// holds whatever comes back.
pub trait Element: Sized {
    fn attr(&mut self, attribute: &str) -> Result<Option<String>, RunnerErrorKind>;

    fn prop(&mut self, prop: &str) -> Result<Option<String>, RunnerErrorKind>;

    fn text(&mut self) -> Result<String, RunnerErrorKind>;

    fn html(&mut self, inner: bool) -> Result<String, RunnerErrorKind>;

    fn find(&mut self, search: Locator) -> Result<Self, RunnerErrorKind>;

    fn click(self) -> Result<(), RunnerErrorKind>;

    fn select_by_index(self, index: usize) -> Result<(), RunnerErrorKind>;

    fn select_by_value(self, value: &str) -> Result<(), RunnerErrorKind>;

    fn select_by_label(self, value: &str) -> Result<(), RunnerErrorKind>;

    fn send_keys(self, value: &str) -> Result<(), RunnerErrorKind>;

    fn is_selected(&mut self) -> Result<bool, RunnerErrorKind>;

    fn is_present(&mut self) -> Result<bool, RunnerErrorKind>;

    fn is_enabled(&mut self) -> Result<bool, RunnerErrorKind>;
}

/// The capability interface of a browser-automation backend: everything
/// the engine may ask a page driver to do. Timeouts are milliseconds.
pub trait Webdriver: Sized {
    type Element: Element;

    fn goto(&mut self, url: &str) -> Result<(), RunnerErrorKind>;

    fn find(&mut self, locator: Locator) -> Result<Self::Element, RunnerErrorKind>;

    fn find_all(&mut self, locator: Locator) -> Result<Vec<Self::Element>, RunnerErrorKind>;

    fn current_url(&mut self) -> Result<String, RunnerErrorKind>;

    fn wait_for_visible(&mut self, locator: Locator, timeout: u64) -> Result<
        (),
        RunnerErrorKind,
    >;

    fn wait_for_not_visible(&mut self, locator: Locator, timeout: u64) -> Result<
        (),
        RunnerErrorKind,
    >;

    fn wait_for_present(&mut self, locator: Locator, timeout: u64) -> Result<
        (),
        RunnerErrorKind,
    >;

    fn wait_for_not_present(&mut self, locator: Locator, timeout: u64) -> Result<
        (),
        RunnerErrorKind,
    >;

    fn wait_for_editable(&mut self, locator: Locator, timeout: u64) -> Result<
        (),
        RunnerErrorKind,
    >;

    fn wait_for_not_editable(&mut self, locator: Locator, timeout: u64) -> Result<
        (),
        RunnerErrorKind,
    >;

    fn set_window_size(&mut self, width: u32, height: u32) -> Result<(), RunnerErrorKind>;

    fn execute(&mut self, script: &str, args: Vec<Value>) -> Result<Value, RunnerErrorKind>;

    fn execute_async(&mut self, script: &str, args: Vec<Value>) -> Result<
        Value,
        RunnerErrorKind,
    >;

    fn close(&mut self) -> Result<(), RunnerErrorKind>;

    fn alert_text(&mut self) -> Result<String, RunnerErrorKind>;

    fn alert_accept(&mut self) -> Result<(), RunnerErrorKind>;

    fn alert_dissmis(&mut self) -> Result<(), RunnerErrorKind>;

    fn double_click(&mut self, locator: Locator) -> Result<(), RunnerErrorKind>;

    fn mouse_down(&mut self, locator: Locator) -> Result<(), RunnerErrorKind>;

    fn mouse_up(&mut self, locator: Locator) -> Result<(), RunnerErrorKind>;

    fn title(&mut self) -> Result<String, RunnerErrorKind>;

    fn click_at(&mut self, locator: Locator, coord: (i32, i32)) -> Result<(), RunnerErrorKind>;

    fn double_click_at(&mut self, locator: Locator, coord: (i32, i32)) -> Result<
        (),
        RunnerErrorKind,
    >;

    fn pause(&mut self, timeout: u64);
}

impl Locator {
    /// The locator a parsed target stands for.
    pub fn from_target(target: crate::parser::Target) -> (r: Locator)
        ensures
            match target.location {
                crate::parser::Location::Css(s) => r matches Locator::Css(p) && p@ == s@,
                crate::parser::Location::Id(s) => r matches Locator::Id(p) && p@ == s@,
                crate::parser::Location::XPath(s) => r matches Locator::XPath(p) && p@ == s@,
            },
    {
        match target.location {
            crate::parser::Location::Css(css) => Locator::Css(css),
            crate::parser::Location::Id(id) => Locator::Id(id),
            crate::parser::Location::XPath(path) => Locator::XPath(path),
        }
    }
}

} // verus!
