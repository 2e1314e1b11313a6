//! The command-line tools the server offers to the sandboxes it manages, and
//! the `tools/*` and `health` operations that report them.
//!
//! This build embeds no executables: each tool is run by its bare name,
//! looked up on `PATH`, so its path is its name.

use vstd::prelude::*;

use crate::text::{concat, text_eq};

verus! {

/// A bundled executable.
#[derive(Debug, Clone, Copy, PartialEq, Eq)]
pub struct Tool {
    /// The name the executable is invoked as.
    pub name: &'static str,
    /// Where the executable is found.
    pub path: &'static str,
}

/// The names of the bundled tools, in order.
pub open spec fn tool_names() -> Seq<Seq<char>> {
    seq!["fd"@, "rg"@]
}

/// `fd`, a fast alternative to `find`.
pub fn fd() -> (res: Tool)
    ensures
        res.name@ == "fd"@,
        res.path@ == "fd"@,
{
    Tool { name: "fd", path: "fd" }
}

/// `rg`, ripgrep, a line-oriented recursive search that respects
/// `.gitignore`.
pub fn ripgrep() -> (res: Tool)
    ensures
        res.name@ == "rg"@,
        res.path@ == "rg"@,
{
    Tool { name: "rg", path: "rg" }
}

/// A tool as this build offers it: found at its name.
pub open spec fn offered(t: Tool) -> bool {
    t.path@ == t.name@
}

/// Every executable this build offers.
pub fn bundled() -> (res: Vec<Tool>)
    ensures
        res@.len() == tool_names().len(),
        forall|i: int| 0 <= i < res@.len() ==> (#[trigger] res@[i]).name@ == tool_names()[i] && offered(res@[i]),
{
    let tools = vec![fd(), ripgrep()];
    tools
}

/// The bundled tool invoked as `name`.
pub fn find(name: &str) -> (res: Option<Tool>)
    ensures
        match res {
            Some(t) => t.name@ == name@ && offered(t) && tool_names().contains(name@),
            None => !tool_names().contains(name@),
        },
{
    let tools = bundled();
    let mut i: usize = 0;
    while i < tools.len()
        invariant
            0 <= i <= tools.len(),
            tools@.len() == tool_names().len(),
            forall|k: int| 0 <= k < tools@.len() ==> (#[trigger] tools@[k]).name@ == tool_names()[k] && offered(tools@[k]),
            forall|k: int| 0 <= k < i ==> tool_names()[k] != name@,
        decreases tools.len() - i,
    {
        if text_eq(tools[i].name, name) {
            assert(tool_names()[i as int] == name@);
            return Some(tools[i]);
        }
        i = i + 1;
    }
    assert forall|k: int| 0 <= k < tool_names().len() implies tool_names()[k] != name@ by {}
    None
}

/// Parameters of `tools/describe`.
#[derive(Debug, Clone, PartialEq, Eq)]
pub struct DescribeToolParams {
    /// The name of a bundled tool, such as `fd`.
    pub name: String,
}

/// A tool as `tools/describe` and `tools/list` report it.
#[derive(Debug, Clone, PartialEq, Eq)]
pub struct DescribeToolResult {
    pub name: String,
    pub path: String,
}

/// Every tool of the build.
#[derive(Debug, Clone, PartialEq, Eq)]
pub struct ListToolsResult {
    pub tools: Vec<DescribeToolResult>,
}

/// The answer of `health`.
#[derive(Debug, Clone, PartialEq, Eq)]
pub struct HealthResult {
    /// Always `ok` when the server answers.
    pub status: String,
    /// Seconds since the server started.
    pub uptime_seconds: u64,
}

/// The report of one tool.
pub fn describe_tool(tool: Tool) -> (res: DescribeToolResult)
    ensures
        res.name@ == tool.name@,
        res.path@ == tool.path@,
{
    DescribeToolResult { name: String::from_str(tool.name), path: String::from_str(tool.path) }
}

/// `tools/list`: every bundled tool, in order.
pub fn all_tools() -> (res: ListToolsResult)
    ensures
        res.tools@.len() == tool_names().len(),
        forall|i: int|
            0 <= i < res.tools@.len() ==> (#[trigger] res.tools@[i]).name@ == tool_names()[i] && res.tools@[i].path@
                == tool_names()[i],
{
    let tools = bundled();
    let mut out: Vec<DescribeToolResult> = Vec::new();
    let mut i: usize = 0;
    while i < tools.len()
        invariant
            0 <= i <= tools.len(),
            tools@.len() == tool_names().len(),
            forall|k: int| 0 <= k < tools@.len() ==> (#[trigger] tools@[k]).name@ == tool_names()[k] && offered(tools@[k]),
            out@.len() == i,
            forall|k: int|
                0 <= k < i ==> (#[trigger] out@[k]).name@ == tool_names()[k] && out@[k].path@ == tool_names()[k],
        decreases tools.len() - i,
    {
        out.push(describe_tool(tools[i]));
        i = i + 1;
    }
    ListToolsResult { tools: out }
}

/// Why a tool request failed: no bundled tool has the name.
#[derive(Debug, Clone, PartialEq, Eq)]
pub struct UnknownToolError(pub String);

impl UnknownToolError {
    /// The HTTP status: not found.
    pub fn status(&self) -> (res: u16)
        ensures
            res == 404,
    {
        404
    }

    pub fn message(&self) -> (res: String)
        ensures
            res@ == "unknown tool: "@ + self.0@,
    {
        concat("unknown tool: ", &self.0)
    }
}

/// `tools/describe`: the named tool, or why there is none.
pub fn describe_named_tool(params: &DescribeToolParams) -> (res: Result<DescribeToolResult, UnknownToolError>)
    ensures
        match res {
            Ok(r) => r.name@ == params.name@ && r.path@ == params.name@ && tool_names().contains(params.name@),
            Err(e) => e.0@ == params.name@ && !tool_names().contains(params.name@),
        },
{
    match find(&params.name) {
        Some(t) => Ok(describe_tool(t)),
        None => Err(UnknownToolError(params.name.clone())),
    }
}

/// `health`: the server is up, and for how long.
pub fn health_result(uptime_seconds: u64) -> (res: HealthResult)
    ensures
        res.status@ == "ok"@,
        res.uptime_seconds == uptime_seconds,
{
    HealthResult { status: String::from_str("ok"), uptime_seconds }
}

} // verus!
