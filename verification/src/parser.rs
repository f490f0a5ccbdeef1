use vstd::prelude::*;

use crate::error::ParseError;
use crate::strutil::{parse_u64, spec_digits_val, spec_uint_digits, spec_uint_shape, str_eq};
use vstd::string::StrSliceExecFns;
use vstd::string::StringExecFns;

verus! {

/// One raw command record of the source format: the operation's name and
/// its payload fields, all plain text.
#[derive(Debug)]
pub struct SideCommand {
    pub id: String,
    pub comment: String,
    pub cmd: String,
    pub target: String,
    pub targets: Vec<(String, String)>,
    pub value: String,
}

/// One raw test of the source format.
#[derive(Debug)]
pub struct SideTest {
    pub id: String,
    pub name: String,
    pub commands: Vec<SideCommand>,
}

/// A raw side file: project data and its tests.
#[derive(Debug)]
pub struct SideFile {
    pub id: String,
    pub version: String,
    pub name: String,
    pub url: String,
    pub tests: Vec<SideTest>,
}

/// A way to find an element on a page.
#[derive(Debug, Clone, PartialEq, Eq)]
pub enum Location {
    XPath(String),
    Css(String),
    Id(String),
}

/// A locator of an HTML element: a location plus an optional tag that
/// records where the location came from.
#[derive(Debug, Clone, PartialEq, Eq)]
pub struct Target {
    pub location: Location,
    pub tag: Option<String>,
}

impl Target {
    pub fn new(location: Location) -> (r: Self)
        ensures
            r.location == location,
            r.tag is None,
    {
        Target { location, tag: None }
    }
}

/// How an option of a select element is picked.
#[derive(Debug, Clone, PartialEq, Eq)]
pub enum SelectLocator {
    Index(String),
    Label(String),
    Id(String),
    Value(String),
}

/// A parsed command: one operation of a test.
#[derive(Debug, Clone, PartialEq, Eq)]
pub enum Cmd {
    Open(String),
    Echo(String),
    Click(Target),
    Pause(u64),
    SetWindowSize(u32, u32),
    Select { target: Target, locator: SelectLocator },
    WaitForElementVisible { target: Target, timeout: u64 },
    WaitForElementEditable { target: Target, timeout: u64 },
    WaitForElementNotPresent { target: Target, timeout: u64 },
    WaitForElementPresent { target: Target, timeout: u64 },
    StoreText { var: String, target: Target, targets: Vec<Target> },
    Store { var: String, value: String },
    Execute { script: String, var: Option<String> },
    ExecuteAsync { script: String, var: Option<String> },
    While(String),
    If(String),
    ElseIf(String),
    Else,
    Do,
    RepeatIf(String),
    ForEach { iterator: String, var: String },
    End,
    StoreXpathCount { var: Option<String>, xpath: String },
    Close,
    Custom { cmd: String, target: String, targets: Vec<Target>, value: String },
    Assert { var: String, value: String },
    RunScript { script: String },
    AnswerOnNextPrompt(String),
    AssertAlert(String),
    AssertPrompt(String),
    AssertChecked(Target),
    AssertNotChecked(Target),
    AssertSelectedValue(Target, String),
    AssertNotSelectedValue(Target, String),
    AssertText(Target, String),
    AssertNotText(Target, String),
    DoubleClick(Target),
    EditContent(Target, String),
    SendKeys(Target, String),
    Type(Target, String),
    Check(Target),
    UnCheck(Target),
    MouseUp(Target),
    MouseDown(Target),
    ChooseCancelOnNextConfirmation,
    ChooseOkOnNextConfirmation,
    ChooseCancelOnNextPrompt,
    AssertTitle(String),
    StoreTitle(String),
    AssertValue(Target, String),
    AssertConfirmation(String),
    AssertSelectedLabel(Target, String),
    Times(String),
    RunTest(String),
}

/// A parsed command together with its source metadata.
#[derive(Debug, Clone, PartialEq, Eq)]
pub struct Command {
    pub id: String,
    pub comment: String,
    pub cmd: Cmd,
}

impl Command {
    pub fn new(id: String, comment: String, cmd: Cmd) -> (r: Self)
        ensures
            r.id == id,
            r.comment == comment,
            r.cmd == cmd,
    {
        Self { id, comment, cmd }
    }
}

/// A parsed test: its metadata and its ordered command list.
#[derive(Debug)]
pub struct Test {
    pub id: String,
    pub name: String,
    pub commands: Vec<Command>,
}

/// A parsed side file.
#[derive(Debug)]
pub struct File {
    pub id: String,
    pub version: String,
    pub name: String,
    pub url: String,
    pub tests: Vec<Test>,
}

impl File {
    pub fn new(id: String, name: String, url: String, version: String, tests: Vec<Test>) -> (r:
        Self)
        ensures
            r.id == id,
            r.name == name,
            r.url == url,
            r.version == version,
            r.tests == tests,
    {
        Self { id, version, name, url, tests }
    }
}

/// The first position of a character in a sequence, from position `i` on.
pub open spec fn spec_find_char(s: Seq<char>, c: char, i: int) -> Option<int>
    decreases s.len() - i when 0 <= i
{
    if i >= s.len() {
        None
    } else if s[i] == c {
        Some(i)
    } else {
        spec_find_char(s, c, i + 1)
    }
}

pub proof fn lemma_find_char_bounds(s: Seq<char>, c: char, i: int)
    requires
        0 <= i,
    ensures
        match spec_find_char(s, c, i) {
            Some(j) => i <= j < s.len() && s[j] == c,
            None => true,
        },
    decreases s.len() - i,
{
    if i < s.len() && s[i] != c {
        lemma_find_char_bounds(s, c, i + 1);
    }
}

/// The first position of a character, by scanning.
fn find_char(s: &str, c: char) -> (r: Option<usize>)
    ensures
        match r {
            Some(j) => spec_find_char(s@, c, 0) == Some(j as int) && j < s@.len(),
            None => spec_find_char(s@, c, 0) is None,
        },
{
    let n = s.unicode_len();
    let mut j: usize = 0;
    while j < n
        invariant
            j <= n,
            n == s@.len(),
            spec_find_char(s@, c, 0) == spec_find_char(s@, c, j as int),
        decreases n - j,
    {
        if s.get_char(j) == c {
            return Some(j);
        }
        j += 1;
    }
    None
}

/// What the strategy part of a locator must be.
pub open spec fn spec_strategy_known(tp: Seq<char>) -> bool {
    tp == "xpath"@ || tp == "css"@ || tp == "id"@
}

/// A locator's text splits at its first `=` into a known strategy and an
/// expression.
pub open spec fn spec_location_ok(s: Seq<char>) -> bool {
    match spec_find_char(s, '=', 0) {
        Some(k) => spec_strategy_known(s.take(k)),
        None => false,
    }
}

/// The location a locator text denotes, when it is well-formed.
pub open spec fn spec_location_rel(s: Seq<char>, loc: Location) -> bool {
    match spec_find_char(s, '=', 0) {
        Some(k) => {
            let tp = s.take(k);
            let path = s.skip(k + 1);
            match loc {
                Location::XPath(p) => tp == "xpath"@ && p@ == path,
                Location::Css(p) => tp == "css"@ && p@ == path,
                Location::Id(p) => tp == "id"@ && p@ == path,
            }
        },
        None => false,
    }
}

impl Location {
    /// Build a location from a strategy name and an expression.
    pub fn new(tp: &str, path: &str) -> (r: Result<Self, ParseError>)
        ensures
            spec_strategy_known(tp@) <==> r is Ok,
            match r {
                Ok(loc) => match loc {
                    Location::XPath(p) => tp@ == "xpath"@ && p@ == path@,
                    Location::Css(p) => tp@ == "css"@ && p@ == path@,
                    Location::Id(p) => tp@ == "id"@ && p@ == path@,
                },
                Err(e) => e is LocatorFormatError,
            },
    {
        if str_eq(tp, "xpath") {
            Ok(Location::XPath(path.to_owned()))
        } else if str_eq(tp, "css") {
            Ok(Location::Css(path.to_owned()))
        } else if str_eq(tp, "id") {
            Ok(Location::Id(path.to_owned()))
        } else {
            Err(
                ParseError::LocatorFormatError(
                    "unexpected locator type, supported xpath|css|id".to_owned(),
                ),
            )
        }
    }
}

/// Split a locator text at its first `=` into a known strategy and an
/// expression.
pub fn parse_location(text: &str) -> (r: Result<Location, ParseError>)
    ensures
        spec_location_ok(text@) <==> r is Ok,
        match r {
            Ok(loc) => spec_location_rel(text@, loc),
            Err(e) => e is LocatorFormatError,
        },
{
    let n = text.unicode_len();
    match find_char(text, '=') {
        Some(k) => {
            let tp = text.substring_char(0, k);
            let path = text.substring_char(k + 1, n);
            proof {
                assert(tp@ == text@.take(k as int));
                assert(path@ == text@.skip(k + 1));
            }
            Location::new(tp, path)
        },
        None => Err(
            ParseError::LocatorFormatError(
                "target should contain a type of selector and a selector splited by '='".to_owned(),
            ),
        ),
    }
}

/// Which select strategies are known.
pub open spec fn spec_select_known(tp: Seq<char>) -> bool {
    tp == "index"@ || tp == "label"@ || tp == "id"@ || tp == "value"@
}

/// A select locator's text splits at its first `=` into a known strategy
/// and an argument.
pub open spec fn spec_select_ok(s: Seq<char>) -> bool {
    match spec_find_char(s, '=', 0) {
        Some(k) => spec_select_known(s.take(k)),
        None => false,
    }
}

/// The select locator a text denotes, when it is well-formed.
pub open spec fn spec_select_rel(s: Seq<char>, loc: SelectLocator) -> bool {
    match spec_find_char(s, '=', 0) {
        Some(k) => {
            let tp = s.take(k);
            let arg = s.skip(k + 1);
            match loc {
                SelectLocator::Index(p) => tp == "index"@ && p@ == arg,
                SelectLocator::Label(p) => tp == "label"@ && p@ == arg,
                SelectLocator::Id(p) => tp == "id"@ && p@ == arg,
                SelectLocator::Value(p) => tp == "value"@ && p@ == arg,
            }
        },
        None => false,
    }
}

/// Split a select locator text at its first `=`.
pub fn parse_select_locator(text: &str) -> (r: Result<SelectLocator, ParseError>)
    ensures
        spec_select_ok(text@) <==> r is Ok,
        match r {
            Ok(loc) => spec_select_rel(text@, loc),
            Err(e) => e is LocatorFormatError,
        },
{
    let n = text.unicode_len();
    match find_char(text, '=') {
        Some(k) => {
            let tp = text.substring_char(0, k);
            let arg = text.substring_char(k + 1, n);
            proof {
                assert(tp@ == text@.take(k as int));
                assert(arg@ == text@.skip(k + 1));
            }
            if str_eq(tp, "index") {
                Ok(SelectLocator::Index(arg.to_owned()))
            } else if str_eq(tp, "label") {
                Ok(SelectLocator::Label(arg.to_owned()))
            } else if str_eq(tp, "id") {
                Ok(SelectLocator::Id(arg.to_owned()))
            } else if str_eq(tp, "value") {
                Ok(SelectLocator::Value(arg.to_owned()))
            } else {
                Err(ParseError::LocatorFormatError("unexpected type of selector".to_owned()))
            }
        },
        None => Err(ParseError::LocatorFormatError("unexpected type of selector".to_owned())),
    }
}

/// What stands after the first `:` of a tag, or the whole tag without one.
pub open spec fn spec_tag_of(s: Seq<char>) -> Seq<char> {
    match spec_find_char(s, ':', 0) {
        Some(k) => s.skip(k + 1),
        None => s,
    }
}

/// Strip a tag's namespace: keep what stands after its first `:`.
pub fn parse_target_tag<'a>(tag: &'a str) -> (r: &'a str)
    ensures
        r@ == spec_tag_of(tag@),
{
    let n = tag.unicode_len();
    match find_char(tag, ':') {
        Some(k) => tag.substring_char(k + 1, n),
        None => tag,
    }
}

/// A timeout text is a millisecond count in the `u64` range.
pub open spec fn spec_timeout_ok(s: Seq<char>) -> bool {
    spec_uint_shape(s) && spec_digits_val(spec_uint_digits(s)) <= u64::MAX
}

/// The milliseconds a timeout text denotes.
pub open spec fn spec_timeout_val(s: Seq<char>) -> nat {
    spec_digits_val(spec_uint_digits(s))
}

/// Parse a millisecond timeout.
pub fn cast_timeout(s: &str) -> (r: Result<u64, ParseError>)
    ensures
        spec_timeout_ok(s@) <==> r is Ok,
        match r {
            Ok(v) => v as nat == spec_timeout_val(s@),
            Err(e) => e is TypeError,
        },
{
    match parse_u64(s) {
        Some(v) => Ok(v),
        None => Err(ParseError::TypeError("expected to get int".to_owned())),
    }
}

/// Every raw target's locator is well-formed.
pub open spec fn spec_targets_ok(targets: Seq<(String, String)>) -> bool {
    forall|i: int| 0 <= i < targets.len() ==> spec_location_ok((#[trigger] targets[i]).0@)
}

/// The parsed targets a raw target list denotes.
pub open spec fn spec_targets_rel(targets: Seq<(String, String)>, out: Seq<Target>) -> bool {
    &&& out.len() == targets.len()
    &&& forall|i: int|
        0 <= i < targets.len() ==> spec_location_rel(
            (#[trigger] targets[i]).0@,
            out[i].location,
        )
    &&& forall|i: int|
        0 <= i < targets.len() ==> ((#[trigger] out[i]).tag matches Some(t) && t@ == spec_tag_of(
            targets[i].1@,
        ))
}

/// Parse a raw target list: each entry's locator, and its tag with the
/// namespace stripped.
pub fn parse_targets(targets: &Vec<(String, String)>) -> (r: Result<Vec<Target>, ParseError>)
    ensures
        spec_targets_ok(targets@) <==> r is Ok,
        match r {
            Ok(out) => spec_targets_rel(targets@, out@),
            Err(e) => e is LocatorFormatError,
        },
{
    let mut out: Vec<Target> = Vec::new();
    let mut i: usize = 0;
    while i < targets.len()
        invariant
            i <= targets@.len(),
            out@.len() == i,
            forall|j: int| 0 <= j < i ==> spec_location_ok((#[trigger] targets@[j]).0@),
            forall|j: int|
                0 <= j < i ==> spec_location_rel((#[trigger] targets@[j]).0@, out@[j].location),
            forall|j: int|
                0 <= j < i ==> ((#[trigger] out@[j]).tag matches Some(t) && t@ == spec_tag_of(
                    targets@[j].1@,
                )),
        decreases targets@.len() - i,
    {
        let location = match parse_location(targets[i].0.as_str()) {
            Ok(loc) => loc,
            Err(e) => {
                return Err(e);
            },
        };
        let tag = parse_target_tag(targets[i].1.as_str()).to_owned();
        out.push(Target { location, tag: Some(tag) });
        i += 1;
    }
    Ok(out)
}


/// A command name that stands for a comment: empty, or starting with `//`.
pub open spec fn spec_is_comment(name: Seq<char>) -> bool {
    name.len() == 0 || (name.len() >= 2 && name[0] == '/' && name[1] == '/')
}

/// A target parsed without a tag.
pub open spec fn target_of_ok(s: Seq<char>, t: Target) -> bool {
    spec_location_rel(s, t.location) && t.tag is None
}

/// An optional variable name: absent when the field is empty.
pub open spec fn opt_var_of(s: Seq<char>, var: Option<String>) -> bool {
    if s.len() == 0 {
        var is None
    } else {
        var matches Some(v) && v@ == s
    }
}

/// A locator whose strategy is `xpath`.
pub open spec fn spec_xpath_ok(s: Seq<char>) -> bool {
    match spec_find_char(s, '=', 0) {
        Some(k) => s.take(k) == "xpath"@,
        None => false,
    }
}

/// A window-size text: width and height split by a single `x`, both in the
/// `u32` range.
pub open spec fn spec_wsize_ok(s: Seq<char>) -> bool {
    match spec_find_char(s, 'x', 0) {
        Some(k) => {
            &&& spec_find_char(s, 'x', k + 1) is None
            &&& spec_uint_shape(s.take(k))
            &&& spec_digits_val(spec_uint_digits(s.take(k))) <= u32::MAX
            &&& spec_uint_shape(s.skip(k + 1))
            &&& spec_digits_val(spec_uint_digits(s.skip(k + 1))) <= u32::MAX
        },
        None => false,
    }
}

pub open spec fn spec_wsize_w(s: Seq<char>) -> nat {
    spec_digits_val(spec_uint_digits(s.take(spec_find_char(s, 'x', 0)->Some_0)))
}

pub open spec fn spec_wsize_h(s: Seq<char>) -> nat {
    spec_digits_val(spec_uint_digits(s.skip(spec_find_char(s, 'x', 0)->Some_0 + 1)))
}

/// How a comment record parses: always to an inert command that keeps its
/// fields, so the positions of later commands stay true. A target list
/// that does not parse is simply left empty: a comment carries no
/// behavior, so nothing in it can be a hard error.
pub open spec fn custom_parses_to(c: SideCommand, r: Result<Cmd, ParseError>) -> bool {
    r matches Ok(cmd) && (cmd matches Cmd::Custom { cmd: name, target, targets, value } && name@
        == c.cmd@ && target@ == c.target@ && value@ == c.value@ && (if spec_targets_ok(
        c.targets@,
    ) {
        spec_targets_rel(c.targets@, targets@)
    } else {
        targets@.len() == 0
    }))
}

/// How one raw command record parses: the exact relation between the record
/// and the outcome, covering every operation name.
pub open spec fn cmd_parses_to(c: SideCommand, r: Result<Cmd, ParseError>) -> bool {
    if c.cmd@ == "open"@ {
        (r matches Ok(cmd) && (cmd matches Cmd::Open(x) && x@ == c.target@))
    } else if c.cmd@ == "store"@ {
        (r matches Ok(cmd) && (cmd matches Cmd::Store { var, value } && var@ == c.value@
                && value@ == c.target@))
    } else if c.cmd@ == "storeText"@ {
        {
                &&& ((spec_targets_ok(c.targets@) && spec_location_ok(c.target@)) <==> r is Ok)
                &&& match r {
                    Ok(cmd) => (cmd matches Cmd::StoreText { var, target, targets } && var@ == c.value@
                        && target_of_ok(c.target@, target) && spec_targets_rel(c.targets@, targets@)),
                    Err(e) => e is LocatorFormatError,
                }
            }
    } else if c.cmd@ == "executeScript"@ {
        (r matches Ok(cmd) && (cmd matches Cmd::Execute { script, var } && script@
                == c.target@ && opt_var_of(c.value@, var)))
    } else if c.cmd@ == "executeScriptAsync"@ {
        (r matches Ok(cmd) && (cmd matches Cmd::ExecuteAsync { script, var }
                && script@ == c.target@ && opt_var_of(c.value@, var)))
    } else if c.cmd@ == "waitForElementVisible"@ {
        {
                &&& ((spec_location_ok(c.target@) && spec_timeout_ok(c.value@)) <==> r is Ok)
                &&& match r {
                    Ok(cmd) => (cmd matches Cmd::WaitForElementVisible { target, timeout } && target_of_ok(
                        c.target@,
                        target,
                    ) && timeout as nat == spec_timeout_val(c.value@)),
                    Err(e) => if !spec_location_ok(c.target@) {
                        e is LocatorFormatError
                    } else {
                        e is TypeError
                    },
                }
            }
    } else if c.cmd@ == "waitForElementEditable"@ {
        {
                &&& ((spec_location_ok(c.target@) && spec_timeout_ok(c.value@)) <==> r is Ok)
                &&& match r {
                    Ok(cmd) => (cmd matches Cmd::WaitForElementEditable { target, timeout } && target_of_ok(
                        c.target@,
                        target,
                    ) && timeout as nat == spec_timeout_val(c.value@)),
                    Err(e) => if !spec_location_ok(c.target@) {
                        e is LocatorFormatError
                    } else {
                        e is TypeError
                    },
                }
            }
    } else if c.cmd@ == "waitForElementNotPresent"@ {
        {
                &&& ((spec_location_ok(c.target@) && spec_timeout_ok(c.value@)) <==> r is Ok)
                &&& match r {
                    Ok(cmd) => (cmd matches Cmd::WaitForElementNotPresent { target, timeout } && target_of_ok(
                        c.target@,
                        target,
                    ) && timeout as nat == spec_timeout_val(c.value@)),
                    Err(e) => if !spec_location_ok(c.target@) {
                        e is LocatorFormatError
                    } else {
                        e is TypeError
                    },
                }
            }
    } else if c.cmd@ == "waitForElementPresent"@ {
        {
                &&& ((spec_location_ok(c.target@) && spec_timeout_ok(c.value@)) <==> r is Ok)
                &&& match r {
                    Ok(cmd) => (cmd matches Cmd::WaitForElementPresent { target, timeout } && target_of_ok(
                        c.target@,
                        target,
                    ) && timeout as nat == spec_timeout_val(c.value@)),
                    Err(e) => if !spec_location_ok(c.target@) {
                        e is LocatorFormatError
                    } else {
                        e is TypeError
                    },
                }
            }
    } else if c.cmd@ == "select"@ {
        {
                &&& ((spec_select_ok(c.value@) && spec_location_ok(c.target@)) <==> r is Ok)
                &&& match r {
                    Ok(cmd) => (cmd matches Cmd::Select { target, locator } && target_of_ok(
                        c.target@,
                        target,
                    ) && spec_select_rel(c.value@, locator)),
                    Err(e) => e is LocatorFormatError,
                }
            }
    } else if c.cmd@ == "addSelection"@ {
        {
                &&& (spec_location_ok(c.target@) <==> r is Ok)
                &&& match r {
                    Ok(cmd) => (cmd matches Cmd::Select { target, locator } && target_of_ok(
                        c.target@,
                        target,
                    ) && (locator matches SelectLocator::Label(l) && l@ == c.value@)),
                    Err(e) => e is LocatorFormatError,
                }
            }
    } else if c.cmd@ == "echo"@ {
        (r matches Ok(cmd) && (cmd matches Cmd::Echo(x) && x@ == c.target@))
    } else if c.cmd@ == "pause"@ {
        {
                &&& (spec_timeout_ok(c.target@) <==> r is Ok)
                &&& match r {
                    Ok(cmd) => (cmd matches Cmd::Pause(t) && t as nat == spec_timeout_val(c.target@)),
                    Err(e) => e is TypeError,
                }
            }
    } else if c.cmd@ == "click"@ {
        {
                &&& (spec_location_ok(c.target@) <==> r is Ok)
                &&& match r {
                    Ok(cmd) => (cmd matches Cmd::Click(t) && target_of_ok(c.target@, t)),
                    Err(e) => e is LocatorFormatError,
                }
            }
    } else if c.cmd@ == "while"@ {
        (r matches Ok(cmd) && (cmd matches Cmd::While(x) && x@ == c.target@))
    } else if c.cmd@ == "if"@ {
        (r matches Ok(cmd) && (cmd matches Cmd::If(x) && x@ == c.target@))
    } else if c.cmd@ == "elseIf"@ {
        (r matches Ok(cmd) && (cmd matches Cmd::ElseIf(x) && x@ == c.target@))
    } else if c.cmd@ == "else"@ {
        (r matches Ok(cmd) && cmd matches Cmd::Else)
    } else if c.cmd@ == "end"@ {
        (r matches Ok(cmd) && cmd matches Cmd::End)
    } else if c.cmd@ == "setWindowSize"@ {
        {
                &&& (spec_wsize_ok(c.target@) <==> r is Ok)
                &&& match r {
                    Ok(cmd) => (cmd matches Cmd::SetWindowSize(w, h) && w as nat == spec_wsize_w(
                        c.target@,
                    ) && h as nat == spec_wsize_h(c.target@)),
                    Err(e) => e is TypeError,
                }
            }
    } else if c.cmd@ == "do"@ {
        (r matches Ok(cmd) && cmd matches Cmd::Do)
    } else if c.cmd@ == "repeatIf"@ {
        (r matches Ok(cmd) && (cmd matches Cmd::RepeatIf(x) && x@ == c.target@))
    } else if c.cmd@ == "forEach"@ {
        (r matches Ok(cmd) && (cmd matches Cmd::ForEach { iterator, var } && iterator@
                == c.target@ && var@ == c.value@))
    } else if c.cmd@ == "close"@ {
        (r matches Ok(cmd) && cmd matches Cmd::Close)
    } else if c.cmd@ == "storeXpathCount"@ {
        {
                &&& (spec_xpath_ok(c.target@) <==> r is Ok)
                &&& match r {
                    Ok(cmd) => (cmd matches Cmd::StoreXpathCount { var, xpath } && opt_var_of(
                        c.value@,
                        var,
                    ) && spec_location_rel(c.target@, Location::XPath(xpath))),
                    Err(e) => e is LocatorFormatError || e is TypeError,
                }
            }
    } else if c.cmd@ == "assert"@ {
        (r matches Ok(cmd) && (cmd matches Cmd::Assert { var, value } && var@ == c.target@
                && value@ == c.value@))
    } else if c.cmd@ == "runScript"@ {
        (r matches Ok(cmd) && (cmd matches Cmd::RunScript { script } && script@
                == c.target@))
    } else if c.cmd@ == "answerOnNextPrompt"@ {
        (r matches Ok(cmd) && (cmd matches Cmd::AnswerOnNextPrompt(x) && x@ == c.target@))
    } else if c.cmd@ == "assertAlert"@ {
        (r matches Ok(cmd) && (cmd matches Cmd::AssertAlert(x) && x@ == c.target@))
    } else if c.cmd@ == "assertChecked"@ {
        {
                &&& (spec_location_ok(c.target@) <==> r is Ok)
                &&& match r {
                    Ok(cmd) => (cmd matches Cmd::AssertChecked(t) && target_of_ok(c.target@, t)),
                    Err(e) => e is LocatorFormatError,
                }
            }
    } else if c.cmd@ == "assertNotChecked"@ {
        {
                &&& (spec_location_ok(c.target@) <==> r is Ok)
                &&& match r {
                    Ok(cmd) => (cmd matches Cmd::AssertNotChecked(t) && target_of_ok(c.target@, t)),
                    Err(e) => e is LocatorFormatError,
                }
            }
    } else if c.cmd@ == "assertPrompt"@ {
        (r matches Ok(cmd) && (cmd matches Cmd::AssertPrompt(x) && x@ == c.target@))
    } else if c.cmd@ == "assertSelectedValue"@ {
        {
                &&& (spec_location_ok(c.target@) <==> r is Ok)
                &&& match r {
                    Ok(cmd) => (cmd matches Cmd::AssertSelectedValue(t, x) && target_of_ok(c.target@, t) && x@
                        == c.value@),
                    Err(e) => e is LocatorFormatError,
                }
            }
    } else if c.cmd@ == "assertNotSelectedValue"@ {
        {
                &&& (spec_location_ok(c.target@) <==> r is Ok)
                &&& match r {
                    Ok(cmd) => (cmd matches Cmd::AssertNotSelectedValue(t, x) && target_of_ok(c.target@, t) && x@
                        == c.value@),
                    Err(e) => e is LocatorFormatError,
                }
            }
    } else if c.cmd@ == "assertText"@ {
        {
                &&& (spec_location_ok(c.target@) <==> r is Ok)
                &&& match r {
                    Ok(cmd) => (cmd matches Cmd::AssertText(t, x) && target_of_ok(c.target@, t) && x@
                        == c.value@),
                    Err(e) => e is LocatorFormatError,
                }
            }
    } else if c.cmd@ == "assertNotText"@ {
        {
                &&& (spec_location_ok(c.target@) <==> r is Ok)
                &&& match r {
                    Ok(cmd) => (cmd matches Cmd::AssertNotText(t, x) && target_of_ok(c.target@, t) && x@
                        == c.value@),
                    Err(e) => e is LocatorFormatError,
                }
            }
    } else if c.cmd@ == "doubleClick"@ {
        {
                &&& (spec_location_ok(c.target@) <==> r is Ok)
                &&& match r {
                    Ok(cmd) => (cmd matches Cmd::DoubleClick(t) && target_of_ok(c.target@, t)),
                    Err(e) => e is LocatorFormatError,
                }
            }
    } else if c.cmd@ == "editContent"@ {
        {
                &&& (spec_location_ok(c.target@) <==> r is Ok)
                &&& match r {
                    Ok(cmd) => (cmd matches Cmd::EditContent(t, x) && target_of_ok(c.target@, t) && x@
                        == c.value@),
                    Err(e) => e is LocatorFormatError,
                }
            }
    } else if c.cmd@ == "sendKeys"@ {
        {
                &&& (spec_location_ok(c.target@) <==> r is Ok)
                &&& match r {
                    Ok(cmd) => (cmd matches Cmd::SendKeys(t, x) && target_of_ok(c.target@, t) && x@
                        == c.value@),
                    Err(e) => e is LocatorFormatError,
                }
            }
    } else if c.cmd@ == "type"@ {
        {
                &&& (spec_location_ok(c.target@) <==> r is Ok)
                &&& match r {
                    Ok(cmd) => (cmd matches Cmd::Type(t, x) && target_of_ok(c.target@, t) && x@
                        == c.value@),
                    Err(e) => e is LocatorFormatError,
                }
            }
    } else if c.cmd@ == "check"@ {
        {
                &&& (spec_location_ok(c.target@) <==> r is Ok)
                &&& match r {
                    Ok(cmd) => (cmd matches Cmd::Check(t) && target_of_ok(c.target@, t)),
                    Err(e) => e is LocatorFormatError,
                }
            }
    } else if c.cmd@ == "uncheck"@ {
        {
                &&& (spec_location_ok(c.target@) <==> r is Ok)
                &&& match r {
                    Ok(cmd) => (cmd matches Cmd::UnCheck(t) && target_of_ok(c.target@, t)),
                    Err(e) => e is LocatorFormatError,
                }
            }
    } else if c.cmd@ == "mouseUp"@ {
        {
                &&& (spec_location_ok(c.target@) <==> r is Ok)
                &&& match r {
                    Ok(cmd) => (cmd matches Cmd::MouseUp(t) && target_of_ok(c.target@, t)),
                    Err(e) => e is LocatorFormatError,
                }
            }
    } else if c.cmd@ == "mouseDown"@ {
        {
                &&& (spec_location_ok(c.target@) <==> r is Ok)
                &&& match r {
                    Ok(cmd) => (cmd matches Cmd::MouseDown(t) && target_of_ok(c.target@, t)),
                    Err(e) => e is LocatorFormatError,
                }
            }
    } else if c.cmd@ == "chooseCancelOnNextConfirmation"@ {
        (r matches Ok(cmd) && cmd matches Cmd::ChooseCancelOnNextConfirmation)
    } else if c.cmd@ == "chooseOkOnNextConfirmation"@ {
        (r matches Ok(cmd) && cmd matches Cmd::ChooseOkOnNextConfirmation)
    } else if c.cmd@ == "chooseCancelOnNextPrompt"@ {
        (r matches Ok(cmd) && cmd matches Cmd::ChooseCancelOnNextPrompt)
    } else if c.cmd@ == "assertTitle"@ {
        (r matches Ok(cmd) && (cmd matches Cmd::AssertTitle(x) && x@ == c.target@))
    } else if c.cmd@ == "storeTitle"@ {
        (r matches Ok(cmd) && (cmd matches Cmd::StoreTitle(x) && x@ == c.value@))
    } else if c.cmd@ == "assertValue"@ {
        {
                &&& (spec_location_ok(c.target@) <==> r is Ok)
                &&& match r {
                    Ok(cmd) => (cmd matches Cmd::AssertValue(t, x) && target_of_ok(c.target@, t) && x@
                        == c.value@),
                    Err(e) => e is LocatorFormatError,
                }
            }
    } else if c.cmd@ == "assertConfirmation"@ {
        (r matches Ok(cmd) && (cmd matches Cmd::AssertConfirmation(x) && x@ == c.target@))
    } else if c.cmd@ == "assertSelectedLabel"@ {
        {
                &&& (spec_location_ok(c.target@) <==> r is Ok)
                &&& match r {
                    Ok(cmd) => (cmd matches Cmd::AssertSelectedLabel(t, x) && target_of_ok(c.target@, t) && x@
                        == c.value@),
                    Err(e) => e is LocatorFormatError,
                }
            }
    } else if c.cmd@ == "times"@ {
        (r matches Ok(cmd) && (cmd matches Cmd::Times(x) && x@ == c.target@))
    } else if c.cmd@ == "run"@ {
        (r matches Ok(cmd) && (cmd matches Cmd::RunTest(x) && x@ == c.target@))
    } else if spec_is_comment(c.cmd@) {
        custom_parses_to(c, r)
    } else {
        r matches Err(ParseError::ValidationError(_))
    }
}

impl Cmd {
    fn parse_open(c: &SideCommand) -> (r: Result<Self, ParseError>)
        ensures
            r matches Ok(cmd) && (cmd matches Cmd::Open(x) && x@ == c.target@),
    {
        Ok(Self::Open(c.target.clone()))
    }

    fn parse_wait_for_visible(c: &SideCommand) -> (r: Result<Self, ParseError>)
        ensures
            (spec_location_ok(c.target@) && spec_timeout_ok(c.value@)) <==> r is Ok,
            match r {
                Ok(cmd) => (cmd matches Cmd::WaitForElementVisible { target, timeout } && target_of_ok(
                    c.target@,
                    target,
                ) && timeout as nat == spec_timeout_val(c.value@)),
                Err(e) => if !spec_location_ok(c.target@) {
                    e is LocatorFormatError
                } else {
                    e is TypeError
                },
            },
    {
        let location = parse_location(c.target.as_str())?;
        let timeout = cast_timeout(c.value.as_str())?;
        Ok(Self::WaitForElementVisible { target: Target::new(location), timeout })
    }

    fn parse_wait_for_editable(c: &SideCommand) -> (r: Result<Self, ParseError>)
        ensures
            (spec_location_ok(c.target@) && spec_timeout_ok(c.value@)) <==> r is Ok,
            match r {
                Ok(cmd) => (cmd matches Cmd::WaitForElementEditable { target, timeout } && target_of_ok(
                    c.target@,
                    target,
                ) && timeout as nat == spec_timeout_val(c.value@)),
                Err(e) => if !spec_location_ok(c.target@) {
                    e is LocatorFormatError
                } else {
                    e is TypeError
                },
            },
    {
        let location = parse_location(c.target.as_str())?;
        let timeout = cast_timeout(c.value.as_str())?;
        Ok(Self::WaitForElementEditable { target: Target::new(location), timeout })
    }

    fn parse_wait_for_not_present(c: &SideCommand) -> (r: Result<Self, ParseError>)
        ensures
            (spec_location_ok(c.target@) && spec_timeout_ok(c.value@)) <==> r is Ok,
            match r {
                Ok(cmd) => (cmd matches Cmd::WaitForElementNotPresent { target, timeout } && target_of_ok(
                    c.target@,
                    target,
                ) && timeout as nat == spec_timeout_val(c.value@)),
                Err(e) => if !spec_location_ok(c.target@) {
                    e is LocatorFormatError
                } else {
                    e is TypeError
                },
            },
    {
        let location = parse_location(c.target.as_str())?;
        let timeout = cast_timeout(c.value.as_str())?;
        Ok(Self::WaitForElementNotPresent { target: Target::new(location), timeout })
    }

    fn parse_wait_for_present(c: &SideCommand) -> (r: Result<Self, ParseError>)
        ensures
            (spec_location_ok(c.target@) && spec_timeout_ok(c.value@)) <==> r is Ok,
            match r {
                Ok(cmd) => (cmd matches Cmd::WaitForElementPresent { target, timeout } && target_of_ok(
                    c.target@,
                    target,
                ) && timeout as nat == spec_timeout_val(c.value@)),
                Err(e) => if !spec_location_ok(c.target@) {
                    e is LocatorFormatError
                } else {
                    e is TypeError
                },
            },
    {
        let location = parse_location(c.target.as_str())?;
        let timeout = cast_timeout(c.value.as_str())?;
        Ok(Self::WaitForElementPresent { target: Target::new(location), timeout })
    }

    fn parse_echo(c: &SideCommand) -> (r: Result<Self, ParseError>)
        ensures
            r matches Ok(cmd) && (cmd matches Cmd::Echo(x) && x@ == c.target@),
    {
        Ok(Self::Echo(c.target.clone()))
    }

    fn parse_click(c: &SideCommand) -> (r: Result<Self, ParseError>)
        ensures
            spec_location_ok(c.target@) <==> r is Ok,
            match r {
                Ok(cmd) => (cmd matches Cmd::Click(t) && target_of_ok(c.target@, t)),
                Err(e) => e is LocatorFormatError,
            },
    {
        let location = parse_location(c.target.as_str())?;
        Ok(Self::Click(Target::new(location)))
    }

    fn parse_while(c: &SideCommand) -> (r: Result<Self, ParseError>)
        ensures
            r matches Ok(cmd) && (cmd matches Cmd::While(x) && x@ == c.target@),
    {
        Ok(Self::While(c.target.clone()))
    }

    fn parse_if(c: &SideCommand) -> (r: Result<Self, ParseError>)
        ensures
            r matches Ok(cmd) && (cmd matches Cmd::If(x) && x@ == c.target@),
    {
        Ok(Self::If(c.target.clone()))
    }

    fn parse_else_if(c: &SideCommand) -> (r: Result<Self, ParseError>)
        ensures
            r matches Ok(cmd) && (cmd matches Cmd::ElseIf(x) && x@ == c.target@),
    {
        Ok(Self::ElseIf(c.target.clone()))
    }

    fn parse_else(_c: &SideCommand) -> (r: Result<Self, ParseError>)
        ensures
            r matches Ok(cmd) && cmd matches Cmd::Else,
    {
        Ok(Self::Else)
    }

    fn parse_end(_c: &SideCommand) -> (r: Result<Self, ParseError>)
        ensures
            r matches Ok(cmd) && cmd matches Cmd::End,
    {
        Ok(Self::End)
    }

    fn parse_do(_c: &SideCommand) -> (r: Result<Self, ParseError>)
        ensures
            r matches Ok(cmd) && cmd matches Cmd::Do,
    {
        Ok(Self::Do)
    }

    fn parse_repeat_if(c: &SideCommand) -> (r: Result<Self, ParseError>)
        ensures
            r matches Ok(cmd) && (cmd matches Cmd::RepeatIf(x) && x@ == c.target@),
    {
        Ok(Self::RepeatIf(c.target.clone()))
    }

    fn parse_close(_c: &SideCommand) -> (r: Result<Self, ParseError>)
        ensures
            r matches Ok(cmd) && cmd matches Cmd::Close,
    {
        Ok(Self::Close)
    }

    fn parse_answer_on_next_prompt(c: &SideCommand) -> (r: Result<Self, ParseError>)
        ensures
            r matches Ok(cmd) && (cmd matches Cmd::AnswerOnNextPrompt(x) && x@ == c.target@),
    {
        Ok(Self::AnswerOnNextPrompt(c.target.clone()))
    }

    fn parse_assert_alert(c: &SideCommand) -> (r: Result<Self, ParseError>)
        ensures
            r matches Ok(cmd) && (cmd matches Cmd::AssertAlert(x) && x@ == c.target@),
    {
        Ok(Self::AssertAlert(c.target.clone()))
    }

    fn parse_assert_checked(c: &SideCommand) -> (r: Result<Self, ParseError>)
        ensures
            spec_location_ok(c.target@) <==> r is Ok,
            match r {
                Ok(cmd) => (cmd matches Cmd::AssertChecked(t) && target_of_ok(c.target@, t)),
                Err(e) => e is LocatorFormatError,
            },
    {
        let location = parse_location(c.target.as_str())?;
        Ok(Self::AssertChecked(Target::new(location)))
    }

    fn parse_assert_not_checked(c: &SideCommand) -> (r: Result<Self, ParseError>)
        ensures
            spec_location_ok(c.target@) <==> r is Ok,
            match r {
                Ok(cmd) => (cmd matches Cmd::AssertNotChecked(t) && target_of_ok(c.target@, t)),
                Err(e) => e is LocatorFormatError,
            },
    {
        let location = parse_location(c.target.as_str())?;
        Ok(Self::AssertNotChecked(Target::new(location)))
    }

    fn parse_assert_prompt(c: &SideCommand) -> (r: Result<Self, ParseError>)
        ensures
            r matches Ok(cmd) && (cmd matches Cmd::AssertPrompt(x) && x@ == c.target@),
    {
        Ok(Self::AssertPrompt(c.target.clone()))
    }

    fn parse_assert_selected_value(c: &SideCommand) -> (r: Result<Self, ParseError>)
        ensures
            spec_location_ok(c.target@) <==> r is Ok,
            match r {
                Ok(cmd) => (cmd matches Cmd::AssertSelectedValue(t, x) && target_of_ok(c.target@, t) && x@
                    == c.value@),
                Err(e) => e is LocatorFormatError,
            },
    {
        let location = parse_location(c.target.as_str())?;
        Ok(Self::AssertSelectedValue(Target::new(location), c.value.clone()))
    }

    fn parse_assert_not_selected_value(c: &SideCommand) -> (r: Result<Self, ParseError>)
        ensures
            spec_location_ok(c.target@) <==> r is Ok,
            match r {
                Ok(cmd) => (cmd matches Cmd::AssertNotSelectedValue(t, x) && target_of_ok(c.target@, t) && x@
                    == c.value@),
                Err(e) => e is LocatorFormatError,
            },
    {
        let location = parse_location(c.target.as_str())?;
        Ok(Self::AssertNotSelectedValue(Target::new(location), c.value.clone()))
    }

    fn parse_assert_text(c: &SideCommand) -> (r: Result<Self, ParseError>)
        ensures
            spec_location_ok(c.target@) <==> r is Ok,
            match r {
                Ok(cmd) => (cmd matches Cmd::AssertText(t, x) && target_of_ok(c.target@, t) && x@
                    == c.value@),
                Err(e) => e is LocatorFormatError,
            },
    {
        let location = parse_location(c.target.as_str())?;
        Ok(Self::AssertText(Target::new(location), c.value.clone()))
    }

    fn parse_assert_not_text(c: &SideCommand) -> (r: Result<Self, ParseError>)
        ensures
            spec_location_ok(c.target@) <==> r is Ok,
            match r {
                Ok(cmd) => (cmd matches Cmd::AssertNotText(t, x) && target_of_ok(c.target@, t) && x@
                    == c.value@),
                Err(e) => e is LocatorFormatError,
            },
    {
        let location = parse_location(c.target.as_str())?;
        Ok(Self::AssertNotText(Target::new(location), c.value.clone()))
    }

    fn parse_double_click(c: &SideCommand) -> (r: Result<Self, ParseError>)
        ensures
            spec_location_ok(c.target@) <==> r is Ok,
            match r {
                Ok(cmd) => (cmd matches Cmd::DoubleClick(t) && target_of_ok(c.target@, t)),
                Err(e) => e is LocatorFormatError,
            },
    {
        let location = parse_location(c.target.as_str())?;
        Ok(Self::DoubleClick(Target::new(location)))
    }

    fn parse_edit_content(c: &SideCommand) -> (r: Result<Self, ParseError>)
        ensures
            spec_location_ok(c.target@) <==> r is Ok,
            match r {
                Ok(cmd) => (cmd matches Cmd::EditContent(t, x) && target_of_ok(c.target@, t) && x@
                    == c.value@),
                Err(e) => e is LocatorFormatError,
            },
    {
        let location = parse_location(c.target.as_str())?;
        Ok(Self::EditContent(Target::new(location), c.value.clone()))
    }

    fn parse_send_keys(c: &SideCommand) -> (r: Result<Self, ParseError>)
        ensures
            spec_location_ok(c.target@) <==> r is Ok,
            match r {
                Ok(cmd) => (cmd matches Cmd::SendKeys(t, x) && target_of_ok(c.target@, t) && x@
                    == c.value@),
                Err(e) => e is LocatorFormatError,
            },
    {
        let location = parse_location(c.target.as_str())?;
        Ok(Self::SendKeys(Target::new(location), c.value.clone()))
    }

    fn parse_type(c: &SideCommand) -> (r: Result<Self, ParseError>)
        ensures
            spec_location_ok(c.target@) <==> r is Ok,
            match r {
                Ok(cmd) => (cmd matches Cmd::Type(t, x) && target_of_ok(c.target@, t) && x@
                    == c.value@),
                Err(e) => e is LocatorFormatError,
            },
    {
        let location = parse_location(c.target.as_str())?;
        Ok(Self::Type(Target::new(location), c.value.clone()))
    }

    fn parse_check(c: &SideCommand) -> (r: Result<Self, ParseError>)
        ensures
            spec_location_ok(c.target@) <==> r is Ok,
            match r {
                Ok(cmd) => (cmd matches Cmd::Check(t) && target_of_ok(c.target@, t)),
                Err(e) => e is LocatorFormatError,
            },
    {
        let location = parse_location(c.target.as_str())?;
        Ok(Self::Check(Target::new(location)))
    }

    fn parse_uncheck(c: &SideCommand) -> (r: Result<Self, ParseError>)
        ensures
            spec_location_ok(c.target@) <==> r is Ok,
            match r {
                Ok(cmd) => (cmd matches Cmd::UnCheck(t) && target_of_ok(c.target@, t)),
                Err(e) => e is LocatorFormatError,
            },
    {
        let location = parse_location(c.target.as_str())?;
        Ok(Self::UnCheck(Target::new(location)))
    }

    fn parse_mouse_up(c: &SideCommand) -> (r: Result<Self, ParseError>)
        ensures
            spec_location_ok(c.target@) <==> r is Ok,
            match r {
                Ok(cmd) => (cmd matches Cmd::MouseUp(t) && target_of_ok(c.target@, t)),
                Err(e) => e is LocatorFormatError,
            },
    {
        let location = parse_location(c.target.as_str())?;
        Ok(Self::MouseUp(Target::new(location)))
    }

    fn parse_mouse_down(c: &SideCommand) -> (r: Result<Self, ParseError>)
        ensures
            spec_location_ok(c.target@) <==> r is Ok,
            match r {
                Ok(cmd) => (cmd matches Cmd::MouseDown(t) && target_of_ok(c.target@, t)),
                Err(e) => e is LocatorFormatError,
            },
    {
        let location = parse_location(c.target.as_str())?;
        Ok(Self::MouseDown(Target::new(location)))
    }

    fn parse_choose_cancel_on_next_confirmation(_c: &SideCommand) -> (r: Result<Self, ParseError>)
        ensures
            r matches Ok(cmd) && cmd matches Cmd::ChooseCancelOnNextConfirmation,
    {
        Ok(Self::ChooseCancelOnNextConfirmation)
    }

    fn parse_choose_ok_on_next_confirmation(_c: &SideCommand) -> (r: Result<Self, ParseError>)
        ensures
            r matches Ok(cmd) && cmd matches Cmd::ChooseOkOnNextConfirmation,
    {
        Ok(Self::ChooseOkOnNextConfirmation)
    }

    fn parse_choose_cancel_on_next_prompt(_c: &SideCommand) -> (r: Result<Self, ParseError>)
        ensures
            r matches Ok(cmd) && cmd matches Cmd::ChooseCancelOnNextPrompt,
    {
        Ok(Self::ChooseCancelOnNextPrompt)
    }

    fn parse_assert_title(c: &SideCommand) -> (r: Result<Self, ParseError>)
        ensures
            r matches Ok(cmd) && (cmd matches Cmd::AssertTitle(x) && x@ == c.target@),
    {
        Ok(Self::AssertTitle(c.target.clone()))
    }

    fn parse_assert_value(c: &SideCommand) -> (r: Result<Self, ParseError>)
        ensures
            spec_location_ok(c.target@) <==> r is Ok,
            match r {
                Ok(cmd) => (cmd matches Cmd::AssertValue(t, x) && target_of_ok(c.target@, t) && x@
                    == c.value@),
                Err(e) => e is LocatorFormatError,
            },
    {
        let location = parse_location(c.target.as_str())?;
        Ok(Self::AssertValue(Target::new(location), c.value.clone()))
    }

    fn parse_assert_confirmation(c: &SideCommand) -> (r: Result<Self, ParseError>)
        ensures
            r matches Ok(cmd) && (cmd matches Cmd::AssertConfirmation(x) && x@ == c.target@),
    {
        Ok(Self::AssertConfirmation(c.target.clone()))
    }

    fn parse_assert_selected_label(c: &SideCommand) -> (r: Result<Self, ParseError>)
        ensures
            spec_location_ok(c.target@) <==> r is Ok,
            match r {
                Ok(cmd) => (cmd matches Cmd::AssertSelectedLabel(t, x) && target_of_ok(c.target@, t) && x@
                    == c.value@),
                Err(e) => e is LocatorFormatError,
            },
    {
        let location = parse_location(c.target.as_str())?;
        Ok(Self::AssertSelectedLabel(Target::new(location), c.value.clone()))
    }

    fn parse_times(c: &SideCommand) -> (r: Result<Self, ParseError>)
        ensures
            r matches Ok(cmd) && (cmd matches Cmd::Times(x) && x@ == c.target@),
    {
        Ok(Self::Times(c.target.clone()))
    }

    fn parse_run(c: &SideCommand) -> (r: Result<Self, ParseError>)
        ensures
            r matches Ok(cmd) && (cmd matches Cmd::RunTest(x) && x@ == c.target@),
    {
        Ok(Self::RunTest(c.target.clone()))
    }
}

impl Cmd {
    /// An inert command with empty fields, as a comment line parses to.
    pub fn empty_custom() -> (r: Self)
        ensures
            r matches Cmd::Custom { cmd, target, targets, value } && cmd@.len() == 0
                && target@.len() == 0 && targets@.len() == 0 && value@.len() == 0,
    {
        Self::Custom {
            cmd: String::new(),
            target: String::new(),
            value: String::new(),
            targets: Vec::new(),
        }
    }

    fn parse_store(c: &SideCommand) -> (r: Result<Self, ParseError>)
        ensures
            r matches Ok(cmd) && (cmd matches Cmd::Store { var, value } && var@ == c.value@
                && value@ == c.target@),
    {
        Ok(Self::Store { value: c.target.clone(), var: c.value.clone() })
    }

    fn parse_store_title(c: &SideCommand) -> (r: Result<Self, ParseError>)
        ensures
            r matches Ok(cmd) && (cmd matches Cmd::StoreTitle(x) && x@ == c.value@),
    {
        Ok(Self::StoreTitle(c.value.clone()))
    }

    fn parse_store_text(c: &SideCommand) -> (r: Result<Self, ParseError>)
        ensures
            (spec_targets_ok(c.targets@) && spec_location_ok(c.target@)) <==> r is Ok,
            match r {
                Ok(cmd) => (cmd matches Cmd::StoreText { var, target, targets } && var@
                    == c.value@ && target_of_ok(c.target@, target) && spec_targets_rel(
                    c.targets@,
                    targets@,
                )),
                Err(e) => e is LocatorFormatError,
            },
    {
        let targets = parse_targets(&c.targets)?;
        let location = parse_location(c.target.as_str())?;
        Ok(Self::StoreText { var: c.value.clone(), target: Target::new(location), targets })
    }

    fn parse_execute_script(c: &SideCommand) -> (r: Result<Self, ParseError>)
        ensures
            r matches Ok(cmd) && (cmd matches Cmd::Execute { script, var } && script@
                == c.target@ && opt_var_of(c.value@, var)),
    {
        let var = if c.value.as_str().is_empty() {
            None
        } else {
            Some(c.value.clone())
        };
        Ok(Self::Execute { script: c.target.clone(), var })
    }

    fn parse_execute_async_script(c: &SideCommand) -> (r: Result<Self, ParseError>)
        ensures
            r matches Ok(cmd) && (cmd matches Cmd::ExecuteAsync { script, var } && script@
                == c.target@ && opt_var_of(c.value@, var)),
    {
        let var = if c.value.as_str().is_empty() {
            None
        } else {
            Some(c.value.clone())
        };
        Ok(Self::ExecuteAsync { script: c.target.clone(), var })
    }

    fn parse_select(c: &SideCommand) -> (r: Result<Self, ParseError>)
        ensures
            (spec_select_ok(c.value@) && spec_location_ok(c.target@)) <==> r is Ok,
            match r {
                Ok(cmd) => (cmd matches Cmd::Select { target, locator } && target_of_ok(
                    c.target@,
                    target,
                ) && spec_select_rel(c.value@, locator)),
                Err(e) => e is LocatorFormatError,
            },
    {
        let locator = parse_select_locator(c.value.as_str())?;
        let location = parse_location(c.target.as_str())?;
        Ok(Self::Select { target: Target::new(location), locator })
    }

    fn parse_add_selection(c: &SideCommand) -> (r: Result<Self, ParseError>)
        ensures
            spec_location_ok(c.target@) <==> r is Ok,
            match r {
                Ok(cmd) => (cmd matches Cmd::Select { target, locator } && target_of_ok(
                    c.target@,
                    target,
                ) && (locator matches SelectLocator::Label(l) && l@ == c.value@)),
                Err(e) => e is LocatorFormatError,
            },
    {
        let locator = SelectLocator::Label(c.value.clone());
        let location = parse_location(c.target.as_str())?;
        Ok(Self::Select { target: Target::new(location), locator })
    }

    fn parse_pause(c: &SideCommand) -> (r: Result<Self, ParseError>)
        ensures
            spec_timeout_ok(c.target@) <==> r is Ok,
            match r {
                Ok(cmd) => (cmd matches Cmd::Pause(t) && t as nat == spec_timeout_val(c.target@)),
                Err(e) => e is TypeError,
            },
    {
        let timeout = cast_timeout(c.target.as_str())?;
        Ok(Self::Pause(timeout))
    }

    fn parse_set_window_size(c: &SideCommand) -> (r: Result<Self, ParseError>)
        ensures
            spec_wsize_ok(c.target@) <==> r is Ok,
            match r {
                Ok(cmd) => (cmd matches Cmd::SetWindowSize(w, h) && w as nat == spec_wsize_w(
                    c.target@,
                ) && h as nat == spec_wsize_h(c.target@)),
                Err(e) => e is TypeError,
            },
    {
        let s = c.target.as_str();
        let n = s.unicode_len();
        match find_char(s, 'x') {
            Some(k) => {
                let left = s.substring_char(0, k);
                let right = s.substring_char(k + 1, n);
                proof {
                    assert(left@ == s@.take(k as int));
                    assert(right@ == s@.skip(k + 1));
                    lemma_find_char_shift(s@, 'x', k + 1);
                }
                match find_char(right, 'x') {
                    Some(_) => Err(
                        ParseError::TypeError(
                            "window size expected to get in a form like this 1916x1034 (Width x Height)".to_owned(),
                        ),
                    ),
                    None => {
                        let w64 = match parse_u64(left) {
                            Some(v) => v,
                            None => {
                                return Err(ParseError::TypeError("expected to get int".to_owned()));
                            },
                        };
                        let h64 = match parse_u64(right) {
                            Some(v) => v,
                            None => {
                                return Err(ParseError::TypeError("expected to get int".to_owned()));
                            },
                        };
                        if w64 > 0xFFFF_FFFFu64 || h64 > 0xFFFF_FFFFu64 {
                            return Err(ParseError::TypeError("expected to get int".to_owned()));
                        }
                        Ok(Self::SetWindowSize(w64 as u32, h64 as u32))
                    },
                }
            },
            None => Err(
                ParseError::TypeError(
                    "window size expected to get in a form like this 1916x1034 (Width x Height)".to_owned(),
                ),
            ),
        }
    }

    fn parse_for_each(c: &SideCommand) -> (r: Result<Self, ParseError>)
        ensures
            r matches Ok(cmd) && (cmd matches Cmd::ForEach { iterator, var } && iterator@
                == c.target@ && var@ == c.value@),
    {
        Ok(Self::ForEach { iterator: c.target.clone(), var: c.value.clone() })
    }

    fn parse_store_xpath_count(c: &SideCommand) -> (r: Result<Self, ParseError>)
        ensures
            spec_xpath_ok(c.target@) <==> r is Ok,
            match r {
                Ok(cmd) => (cmd matches Cmd::StoreXpathCount { var, xpath } && opt_var_of(
                    c.value@,
                    var,
                ) && spec_location_rel(c.target@, Location::XPath(xpath))),
                Err(e) => e is LocatorFormatError || e is TypeError,
            },
    {
        proof {
            reveal_strlit("xpath");
            reveal_strlit("css");
            reveal_strlit("id");
            assert("xpath"@.len() == 5 && "css"@.len() == 3 && "id"@.len() == 2);
            assert("xpath"@ != "css"@ && "xpath"@ != "id"@);
        }
        let var = if c.value.as_str().is_empty() {
            None
        } else {
            Some(c.value.clone())
        };
        let location = parse_location(c.target.as_str())?;
        match location {
            Location::XPath(xpath) => Ok(Self::StoreXpathCount { var, xpath }),
            _ => Err(
                ParseError::LocatorFormatError("expected to get an xpath locator".to_owned()),
            ),
        }
    }

    fn parse_assert(c: &SideCommand) -> (r: Result<Self, ParseError>)
        ensures
            r matches Ok(cmd) && (cmd matches Cmd::Assert { var, value } && var@ == c.target@
                && value@ == c.value@),
    {
        Ok(Self::Assert { var: c.target.clone(), value: c.value.clone() })
    }

    fn parse_run_script(c: &SideCommand) -> (r: Result<Self, ParseError>)
        ensures
            r matches Ok(cmd) && (cmd matches Cmd::RunScript { script } && script@ == c.target@),
    {
        Ok(Self::RunScript { script: c.target.clone() })
    }

    fn parse_custom_cmd(c: &SideCommand) -> (r: Result<Self, ParseError>)
        ensures
            custom_parses_to(*c, r),
    {
        let targets = match parse_targets(&c.targets) {
            Ok(t) => t,
            Err(_) => Vec::new(),
        };
        Ok(Self::Custom {
            cmd: c.cmd.clone(),
            target: c.target.clone(),
            value: c.value.clone(),
            targets,
        })
    }
}

/// Shifting the start of a sequence shifts the first position of a
/// character with it.
proof fn lemma_find_char_shift(s: Seq<char>, c: char, m: int)
    requires
        0 <= m <= s.len(),
    ensures
        match spec_find_char(s, c, m) {
            Some(j) => spec_find_char(s.skip(m), c, 0) == Some(j - m),
            None => spec_find_char(s.skip(m), c, 0) is None,
        },
{
    lemma_find_char_shift_rec(s, c, m, 0);
}

proof fn lemma_find_char_shift_rec(s: Seq<char>, c: char, m: int, i: int)
    requires
        0 <= m <= s.len(),
        0 <= i,
    ensures
        match spec_find_char(s, c, m + i) {
            Some(j) => spec_find_char(s.skip(m), c, i) == Some(j - m),
            None => spec_find_char(s.skip(m), c, i) is None,
        },
    decreases s.len() - m - i,
{
    if m + i < s.len() {
        assert(s.skip(m)[i] == s[m + i]);
        if s[m + i] != c {
            lemma_find_char_shift_rec(s, c, m, i + 1);
        }
    }
}

/// A record that parsing refuses is fit by no parsed command.
proof fn lemma_cmd_parses_fail(c: SideCommand, e: ParseError)
    requires
        cmd_parses_to(c, Err(e)),
    ensures
        !spec_cmd_ok(c),
{
    assert forall|cmd: Cmd| !cmd_parses_to(c, Ok(cmd)) by {}
}

/// A record that some parsed command fits.
pub open spec fn spec_cmd_ok(c: SideCommand) -> bool {
    exists|cmd: Cmd| cmd_parses_to(c, Ok(cmd))
}

/// How a raw record maps to a parsed command with its metadata kept.
pub open spec fn command_parses_to(s: SideCommand, c: Command) -> bool {
    c.id@ == s.id@ && c.comment@ == s.comment@ && cmd_parses_to(s, Ok(c.cmd))
}

/// How a raw test maps to a parsed test.
pub open spec fn test_parses_to(s: SideTest, t: Test) -> bool {
    &&& t.id@ == s.id@
    &&& t.name@ == s.name@
    &&& t.commands@.len() == s.commands@.len()
    &&& forall|i: int|
        0 <= i < s.commands@.len() ==> command_parses_to(
            s.commands@[i],
            #[trigger] t.commands@[i],
        )
}

/// How a raw side file maps to a parsed file.
pub open spec fn file_parses_to(s: SideFile, f: File) -> bool {
    &&& f.id@ == s.id@
    &&& f.version@ == s.version@
    &&& f.name@ == s.name@
    &&& f.url@ == s.url@
    &&& f.tests@.len() == s.tests@.len()
    &&& forall|t: int|
        0 <= t < s.tests@.len() ==> test_parses_to(s.tests@[t], #[trigger] f.tests@[t])
}

/// Dispatch one raw command record on its operation name.
#[verifier::rlimit(100)]
pub fn parse_cmd(c: &SideCommand) -> (r: Result<Cmd, ParseError>)
    ensures
        cmd_parses_to(*c, r),
{
    let name = c.cmd.as_str();
    if str_eq(name, "open") {
        return Cmd::parse_open(c);
    } else if str_eq(name, "store") {
        return Cmd::parse_store(c);
    } else if str_eq(name, "storeText") {
        return Cmd::parse_store_text(c);
    } else if str_eq(name, "executeScript") {
        return Cmd::parse_execute_script(c);
    } else if str_eq(name, "executeScriptAsync") {
        return Cmd::parse_execute_async_script(c);
    } else if str_eq(name, "waitForElementVisible") {
        return Cmd::parse_wait_for_visible(c);
    } else if str_eq(name, "waitForElementEditable") {
        return Cmd::parse_wait_for_editable(c);
    } else if str_eq(name, "waitForElementNotPresent") {
        return Cmd::parse_wait_for_not_present(c);
    } else if str_eq(name, "waitForElementPresent") {
        return Cmd::parse_wait_for_present(c);
    } else if str_eq(name, "select") {
        return Cmd::parse_select(c);
    } else if str_eq(name, "addSelection") {
        return Cmd::parse_add_selection(c);
    } else if str_eq(name, "echo") {
        return Cmd::parse_echo(c);
    } else if str_eq(name, "pause") {
        return Cmd::parse_pause(c);
    } else if str_eq(name, "click") {
        return Cmd::parse_click(c);
    } else if str_eq(name, "while") {
        return Cmd::parse_while(c);
    } else if str_eq(name, "if") {
        return Cmd::parse_if(c);
    } else if str_eq(name, "elseIf") {
        return Cmd::parse_else_if(c);
    } else if str_eq(name, "else") {
        return Cmd::parse_else(c);
    } else if str_eq(name, "end") {
        return Cmd::parse_end(c);
    } else if str_eq(name, "setWindowSize") {
        return Cmd::parse_set_window_size(c);
    } else if str_eq(name, "do") {
        return Cmd::parse_do(c);
    } else if str_eq(name, "repeatIf") {
        return Cmd::parse_repeat_if(c);
    } else if str_eq(name, "forEach") {
        return Cmd::parse_for_each(c);
    } else if str_eq(name, "close") {
        return Cmd::parse_close(c);
    } else if str_eq(name, "storeXpathCount") {
        return Cmd::parse_store_xpath_count(c);
    } else if str_eq(name, "assert") {
        return Cmd::parse_assert(c);
    } else if str_eq(name, "runScript") {
        return Cmd::parse_run_script(c);
    } else if str_eq(name, "answerOnNextPrompt") {
        return Cmd::parse_answer_on_next_prompt(c);
    } else if str_eq(name, "assertAlert") {
        return Cmd::parse_assert_alert(c);
    } else if str_eq(name, "assertChecked") {
        return Cmd::parse_assert_checked(c);
    } else if str_eq(name, "assertNotChecked") {
        return Cmd::parse_assert_not_checked(c);
    } else if str_eq(name, "assertPrompt") {
        return Cmd::parse_assert_prompt(c);
    } else if str_eq(name, "assertSelectedValue") {
        return Cmd::parse_assert_selected_value(c);
    } else if str_eq(name, "assertNotSelectedValue") {
        return Cmd::parse_assert_not_selected_value(c);
    } else if str_eq(name, "assertText") {
        return Cmd::parse_assert_text(c);
    } else if str_eq(name, "assertNotText") {
        return Cmd::parse_assert_not_text(c);
    } else if str_eq(name, "doubleClick") {
        return Cmd::parse_double_click(c);
    } else if str_eq(name, "editContent") {
        return Cmd::parse_edit_content(c);
    } else if str_eq(name, "sendKeys") {
        return Cmd::parse_send_keys(c);
    } else if str_eq(name, "type") {
        return Cmd::parse_type(c);
    } else if str_eq(name, "check") {
        return Cmd::parse_check(c);
    } else if str_eq(name, "uncheck") {
        return Cmd::parse_uncheck(c);
    } else if str_eq(name, "mouseUp") {
        return Cmd::parse_mouse_up(c);
    } else if str_eq(name, "mouseDown") {
        return Cmd::parse_mouse_down(c);
    } else if str_eq(name, "chooseCancelOnNextConfirmation") {
        return Cmd::parse_choose_cancel_on_next_confirmation(c);
    } else if str_eq(name, "chooseOkOnNextConfirmation") {
        return Cmd::parse_choose_ok_on_next_confirmation(c);
    } else if str_eq(name, "chooseCancelOnNextPrompt") {
        return Cmd::parse_choose_cancel_on_next_prompt(c);
    } else if str_eq(name, "assertTitle") {
        return Cmd::parse_assert_title(c);
    } else if str_eq(name, "storeTitle") {
        return Cmd::parse_store_title(c);
    } else if str_eq(name, "assertValue") {
        return Cmd::parse_assert_value(c);
    } else if str_eq(name, "assertConfirmation") {
        return Cmd::parse_assert_confirmation(c);
    } else if str_eq(name, "assertSelectedLabel") {
        return Cmd::parse_assert_selected_label(c);
    } else if str_eq(name, "times") {
        return Cmd::parse_times(c);
    } else if str_eq(name, "run") {
        return Cmd::parse_run(c);
    }
    if name.is_empty() || (name.unicode_len() >= 2 && name.get_char(0) == '/' && name.get_char(1)
        == '/') {
        Cmd::parse_custom_cmd(c)
    } else {
        Err(ParseError::ValidationError("command is not implemented".to_owned()))
    }
}

/// Parse a whole raw side file: every test's commands in order. The first
/// record that does not parse decides the error.
#[verifier::loop_isolation(false)]
pub fn parse(side: &SideFile) -> (r: Result<File, ParseError>)
    ensures
        (forall|t: int, i: int|
            0 <= t < side.tests@.len() && 0 <= i < side.tests@[t].commands@.len()
                ==> spec_cmd_ok(#[trigger] side.tests@[t].commands@[i])) <==> r is Ok,
        match r {
            Ok(f) => file_parses_to(*side, f),
            Err(e) => exists|t: int, i: int|
                0 <= t < side.tests@.len() && 0 <= i < side.tests@[t].commands@.len()
                    && cmd_parses_to(#[trigger] side.tests@[t].commands@[i], Err(e)),
        },
{
    let mut tests: Vec<Test> = Vec::new();
    let mut t: usize = 0;
    while t < side.tests.len()
        invariant
            t <= side.tests@.len(),
            tests@.len() == t,
            forall|a: int| 0 <= a < t ==> test_parses_to(side.tests@[a], #[trigger] tests@[a]),
            forall|a: int, i: int|
                0 <= a < t && 0 <= i < side.tests@[a].commands@.len() ==> spec_cmd_ok(
                    #[trigger] side.tests@[a].commands@[i],
                ),
        decreases side.tests@.len() - t,
    {
        let test = &side.tests[t];
        let mut commands: Vec<Command> = Vec::new();
        let mut i: usize = 0;
        while i < test.commands.len()
            invariant
                i <= test.commands@.len(),
                commands@.len() == i,
                forall|j: int|
                    0 <= j < i ==> command_parses_to(
                        test.commands@[j],
                        #[trigger] commands@[j],
                    ),
                forall|j: int| 0 <= j < i ==> spec_cmd_ok(#[trigger] test.commands@[j]),
            decreases test.commands@.len() - i,
        {
            let command = &test.commands[i];
            match parse_cmd(command) {
                Ok(cmd) => {
                    proof {
                        assert(spec_cmd_ok(test.commands@[i as int])) by {
                            assert(cmd_parses_to(test.commands@[i as int], Ok(cmd)));
                        }
                    }
                    commands.push(
                        Command {
                            id: command.id.clone(),
                            comment: command.comment.clone(),
                            cmd,
                        },
                    );
                },
                Err(e) => {
                    proof {
                        lemma_cmd_parses_fail(test.commands@[i as int], e);
                        assert(cmd_parses_to(side.tests@[t as int].commands@[i as int], Err(e)));
                    }
                    return Err(e);
                },
            }
            i += 1;
        }
        tests.push(Test { id: test.id.clone(), name: test.name.clone(), commands });
        t += 1;
    }
    Ok(
        File {
            id: side.id.clone(),
            version: side.version.clone(),
            name: side.name.clone(),
            url: side.url.clone(),
            tests,
        },
    )
}


} // verus!
