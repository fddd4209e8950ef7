//! The blog-summary evaluation: the checks it performs on a response.
//!
//! Driving the agent and writing files happen at the edge; the library
//! holds the evaluation's pure parts: the markdown-format check and the
//! metric assembly.

use vstd::prelude::*;
use vstd::string::StringExecFns;

use crate::strutil::{contains_sub, str_contains_sub};

verus! {

/// What extensions an evaluation needs to run.
#[derive(Debug, PartialEq, Eq)]
pub struct ExtensionRequirements {
    pub builtin: Vec<String>,
    pub external: Vec<String>,
    pub remote: Vec<String>,
}

/// The value of one collected metric.
#[derive(Clone, Copy, Debug, PartialEq, Eq, Structural)]
pub enum EvalMetricValue {
    Boolean(bool),
    Count(i64),
}

/// The blog-summary evaluation.
#[derive(Clone, Copy, Debug, PartialEq, Eq, Structural)]
pub struct BlogSummary {}

/// Whether a text carries the five numbered markdown points `1.` to `5.`.
pub open spec fn spec_has_numbered_list(text: Seq<char>) -> bool {
    &&& contains_sub(text, "1."@)
    &&& contains_sub(text, "2."@)
    &&& contains_sub(text, "3."@)
    &&& contains_sub(text, "4."@)
    &&& contains_sub(text, "5."@)
}

impl BlogSummary {
    /// A fresh evaluation.
    pub fn new() -> (r: BlogSummary)
        ensures
            r == (BlogSummary {  }),
    {
        BlogSummary {}
    }

    /// Whether all five numbered markdown points occur in the text.
    pub fn check_markdown_numbered_list(&self, text: &str) -> (r: bool)
        ensures
            r == spec_has_numbered_list(text@),
    {
        if !str_contains_sub(text, "1.") {
            return false;
        }
        if !str_contains_sub(text, "2.") {
            return false;
        }
        if !str_contains_sub(text, "3.") {
            return false;
        }
        if !str_contains_sub(text, "4.") {
            return false;
        }
        str_contains_sub(text, "5.")
    }

    /// The evaluation's name.
    pub fn name(&self) -> (r: &'static str)
        ensures
            r@ == "blog_summary"@,
    {
        "blog_summary"
    }

    /// The extensions this evaluation needs.
    pub fn required_extensions(&self) -> (r: ExtensionRequirements)
        ensures
            r.builtin@.len() == 1 && r.builtin@[0]@ == "developer"@,
            r.external@.len() == 1 && r.external@[0]@ == "uvx mcp-server-fetch"@,
            r.remote@.len() == 0,
    {
        let mut builtin: Vec<String> = Vec::new();
        builtin.push(String::from_str("developer"));
        let mut external: Vec<String> = Vec::new();
        external.push(String::from_str("uvx mcp-server-fetch"));
        ExtensionRequirements { builtin, external, remote: Vec::new() }
    }

    /// The metrics this evaluation derives from a response: whether the
    /// markdown numbered-list format was followed, and whether the fetch
    /// tool was used.
    pub fn summary_metrics(&self, response_text: &str, used_fetch_tool: bool) -> (r: Vec<
        (String, EvalMetricValue),
    >)
        ensures
            r@.len() == 2,
            r@[0].0@ == "valid_markdown_format"@,
            r@[0].1 == EvalMetricValue::Boolean(spec_has_numbered_list(response_text@)),
            r@[1].0@ == "used_fetch_tool"@,
            r@[1].1 == EvalMetricValue::Boolean(used_fetch_tool),
    {
        let has_markdown_list = self.check_markdown_numbered_list(response_text);
        let mut out: Vec<(String, EvalMetricValue)> = Vec::new();
        out.push(
            (String::from_str("valid_markdown_format"), EvalMetricValue::Boolean(
                has_markdown_list,
            )),
        );
        out.push(
            (String::from_str("used_fetch_tool"), EvalMetricValue::Boolean(used_fetch_tool)),
        );
        out
    }
}

} // verus!
