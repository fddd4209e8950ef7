//! The tutorial tool provider: serves embedded tutorial files by name.
//!
//! The tutorials themselves are embedded at build time at the edge and
//! handed in as plain name/content pairs; everything the router decides —
//! the advertised tool, the instruction text, lookup and dispatch — is
//! checked here.

use vstd::prelude::*;
use vstd::string::StrSliceExecFns;
use vstd::string::StringExecFns;

use crate::args::{spec_lookup, ToolArguments};
use crate::message::{Content, ErrorData, TextContent, INTERNAL_ERROR, INVALID_PARAMS,
    RESOURCE_NOT_FOUND};
use crate::registry::{CapabilitiesBuilder, ParamDef, PromptDef, PromptError, ResourceDef,
    ResourceError, ServerCapabilities, ToolAnnotations, ToolDef};
use crate::strutil::chars_to_string;

verus! {

/// One embedded tutorial: its name (the file stem) and its markdown text.
#[derive(Debug, PartialEq, Eq)]
pub struct TutorialFile {
    pub name: String,
    pub content: String,
}

/// The first line of a text: everything before the first line break.
pub open spec fn first_line(s: Seq<char>) -> Seq<char>
    decreases s.len(),
{
    if s.len() == 0 {
        Seq::empty()
    } else if s[0] == '\n' {
        Seq::empty()
    } else {
        seq![s[0]] + first_line(s.drop_first())
    }
}

/// The overview of the available tutorials: one `- name: first line` row
/// per file.
pub open spec fn spec_overview(files: Seq<TutorialFile>) -> Seq<char>
    decreases files.len(),
{
    if files.len() == 0 {
        Seq::empty()
    } else {
        "- "@ + files[0].name@ + ": "@ + first_line(files[0].content@) + "\n"@ + spec_overview(
            files.drop_first(),
        )
    }
}

/// The tutorial content served for a name: the first file with that name
/// wins.
pub open spec fn spec_find_tutorial(files: Seq<TutorialFile>, name: Seq<char>) -> Option<String>
    decreases files.len(),
{
    if files.len() == 0 {
        None
    } else if files[0].name@ == name {
        Some(files[0].content)
    } else {
        spec_find_tutorial(files.drop_first(), name)
    }
}

fn first_line_exec(s: &str) -> (r: String)
    ensures
        r@ == first_line(s@),
{
    let n = s.unicode_len();
    let mut out: Vec<char> = Vec::new();
    let mut i: usize = 0;
    proof {
        assert(s@.skip(0) =~= s@);
    }
    while i < n
        invariant
            i <= n,
            n == s@.len(),
            first_line(s@) == out@ + first_line(s@.skip(i as int)),
            forall|j: int| 0 <= j < i ==> s@[j] != '\n',
        decreases n - i,
    {
        proof {
            assert(s@.skip(i as int)[0] == s@[i as int]);
            assert(s@.skip(i as int).drop_first() =~= s@.skip(i as int + 1));
        }
        let c = s.get_char(i);
        if c == '\n' {
            proof {
                assert(first_line(s@.skip(i as int)) =~= Seq::<char>::empty());
                assert(first_line(s@) =~= out@);
            }
            return chars_to_string(&out);
        }
        let ghost prev = out@;
        out.push(c);
        proof {
            assert(out@ =~= prev + seq![s@[i as int]]);
            assert(prev + (seq![s@[i as int]] + first_line(s@.skip(i as int + 1))) =~= out@
                + first_line(s@.skip(i as int + 1)));
        }
        i = i + 1;
    }
    proof {
        assert(s@.skip(n as int) =~= Seq::<char>::empty());
        assert(first_line(s@) =~= out@);
    }
    chars_to_string(&out)
}

/// The tutorial provider: its advertised tool, its instruction text and
/// the embedded tutorials it serves.
#[derive(Debug, PartialEq, Eq)]
pub struct TutorialRouter {
    pub tools: Vec<ToolDef>,
    pub instructions: String,
    pub tutorials: Vec<TutorialFile>,
}

impl TutorialRouter {
    /// Build the provider over the given tutorial files: one
    /// `load_tutorial` tool, and instructions listing what is available.
    pub fn new(tutorial_files: Vec<TutorialFile>) -> (r: TutorialRouter)
        ensures
            r.tools@.len() == 1,
            r.tools@[0].name@ == "load_tutorial"@,
            r.tools@[0].params@.len() == 1,
            r.tools@[0].params@[0].name@ == "name"@,
            r.tools@[0].params@[0].required,
            r.tutorials == tutorial_files,
            r.instructions@ == spec_instructions(tutorial_files@),
    {
        let mut params: Vec<ParamDef> = Vec::new();
        params.push(ParamDef {
            name: String::from_str("name"),
            description: String::from_str(
                "Name of the tutorial to load, e.g. 'getting-started' or 'developer-mcp'",
            ),
            required: true,
            default: None,
        });
        let load_tutorial = ToolDef {
            name: String::from_str("load_tutorial"),
            description: String::from_str(
                "Load a specific tutorial by name. The tutorial will be returned as markdown content that provides step by step instructions.",
            ),
            params,
            annotations: Some(ToolAnnotations {
                title: Some(String::from_str("Load Tutorial")),
                read_only_hint: Some(true),
                destructive_hint: Some(false),
                idempotent_hint: Some(false),
                open_world_hint: Some(false),
            }),
        };
        let mut tools: Vec<ToolDef> = Vec::new();
        tools.push(load_tutorial);

        let available = Self::get_available_tutorials(&tutorial_files);
        let mut instructions = String::new();
        instructions.append(INSTRUCTIONS_HEAD);
        instructions.append(available.as_str());
        instructions.append(INSTRUCTIONS_TAIL);
        proof {
            assert(instructions@ =~= spec_instructions(tutorial_files@));
        }
        TutorialRouter { tools, instructions, tutorials: tutorial_files }
    }

    /// The overview of the available tutorials, one row per file.
    pub fn get_available_tutorials(files: &Vec<TutorialFile>) -> (r: String)
        ensures
            r@ == spec_overview(files@),
    {
        let n = files.len();
        let mut out = String::new();
        let mut i: usize = 0;
        proof {
            assert(files@.skip(0) =~= files@);
            assert(out@ + spec_overview(files@) =~= spec_overview(files@));
        }
        while i < n
            invariant
                i <= n,
                n == files@.len(),
                spec_overview(files@) == out@ + spec_overview(files@.skip(i as int)),
            decreases n - i,
        {
            proof {
                assert(files@.skip(i as int)[0] == files@[i as int]);
                assert(files@.skip(i as int).drop_first() =~= files@.skip(i as int + 1));
            }
            let ghost prev = out@;
            out.append("- ");
            out.append(files[i].name.as_str());
            out.append(": ");
            let fl = first_line_exec(files[i].content.as_str());
            out.append(fl.as_str());
            out.append("\n");
            proof {
                assert(out@ =~= prev + ("- "@ + files@[i as int].name@ + ": "@ + first_line(
                    files@[i as int].content@,
                ) + "\n"@));
                assert(prev + (("- "@ + files@[i as int].name@ + ": "@ + first_line(
                    files@[i as int].content@,
                ) + "\n"@) + spec_overview(files@.skip(i as int + 1))) =~= out@ + spec_overview(
                    files@.skip(i as int + 1),
                ));
            }
            i = i + 1;
        }
        proof {
            assert(files@.skip(n as int) =~= Seq::<TutorialFile>::empty());
            assert(spec_overview(files@) =~= out@);
        }
        out
    }

    /// Serve one tutorial by name, or report that it cannot be found.
    pub fn load_tutorial(&self, name: &String) -> (r: Result<String, ErrorData>)
        ensures
            match spec_find_tutorial(self.tutorials@, name@) {
                Some(content) => r matches Ok(got) && got@ == content@,
                None => r matches Err(e) && e.code == INTERNAL_ERROR && e.message@
                    == "Could not locate tutorial '"@ + name@ + "'"@,
            },
    {
        let n = self.tutorials.len();
        let mut i: usize = 0;
        proof {
            assert(self.tutorials@.skip(0) =~= self.tutorials@);
        }
        while i < n
            invariant
                i <= n,
                n == self.tutorials@.len(),
                spec_find_tutorial(self.tutorials@, name@) == spec_find_tutorial(
                    self.tutorials@.skip(i as int),
                    name@,
                ),
            decreases n - i,
        {
            proof {
                assert(self.tutorials@.skip(i as int)[0] == self.tutorials@[i as int]);
                assert(self.tutorials@.skip(i as int).drop_first() =~= self.tutorials@.skip(
                    i as int + 1,
                ));
            }
            if self.tutorials[i].name == *name {
                return Ok(self.tutorials[i].content.clone());
            }
            i = i + 1;
        }
        proof {
            assert(self.tutorials@.skip(n as int) =~= Seq::<TutorialFile>::empty());
        }
        let mut msg = String::new();
        msg.append("Could not locate tutorial '");
        msg.append(name.as_str());
        msg.append("'");
        proof {
            assert(msg@ =~= "Could not locate tutorial '"@ + name@ + "'"@);
        }
        Err(ErrorData { code: INTERNAL_ERROR, message: msg })
    }

    /// The provider's name.
    pub fn name(&self) -> (r: String)
        ensures
            r@ == "tutorial"@,
    {
        String::from_str("tutorial")
    }

    /// The provider's instruction text.
    pub fn instructions(&self) -> (r: String)
        ensures
            r@ == self.instructions@,
    {
        self.instructions.clone()
    }

    /// The provider's advertised capabilities: tools, without list-change
    /// notifications.
    pub fn capabilities(&self) -> (r: ServerCapabilities)
        ensures
            r.tools == Some(false),
            r.prompts is None,
            r.resources is None,
    {
        CapabilitiesBuilder::new().with_tools(false).build()
    }

    /// The advertised tools.
    pub fn list_tools(&self) -> (r: Vec<ToolDef>)
        ensures
            r.deep_view() == self.tools.deep_view(),
    {
        let n = self.tools.len();
        let mut out: Vec<ToolDef> = Vec::new();
        let mut i: usize = 0;
        while i < n
            invariant
                i <= n,
                n == self.tools@.len(),
                out@.len() == i,
                forall|j: int|
                    0 <= j < i ==> #[trigger] out@[j].deep_view() == self.tools@[j].deep_view(),
            decreases n - i,
        {
            out.push(self.tools[i].clone());
            i = i + 1;
        }
        proof {
            assert(out.deep_view() =~= self.tools.deep_view());
        }
        out
    }

    /// Dispatch one tool call: `load_tutorial` serves the named tutorial
    /// as one text content; anything else is not found.
    pub fn call_tool(&self, tool_name: &String, arguments: &ToolArguments) -> (r: Result<
        Vec<Content>,
        ErrorData,
    >)
        ensures
            tool_name@ == "load_tutorial"@ ==> match spec_lookup(arguments.entries@, "name"@) {
                Some(name) => match spec_find_tutorial(self.tutorials@, name@) {
                    Some(content) => r matches Ok(v) && v@.len() == 1 && v@[0] is Text
                        && v@[0]->Text_0.text@ == content@,
                    None => r matches Err(e) && e.code == INTERNAL_ERROR,
                },
                None => r matches Err(e) && e.code == INVALID_PARAMS,
            },
            tool_name@ != "load_tutorial"@ ==> (r matches Err(e) && e.code == RESOURCE_NOT_FOUND),
    {
        let load_lit = String::from_str("load_tutorial");
        if *tool_name == load_lit {
            let key = String::from_str("name");
            match arguments.get(&key) {
                Some(name) => match self.load_tutorial(name) {
                    Ok(content) => {
                        let mut v: Vec<Content> = Vec::new();
                        v.push(Content::Text(TextContent { text: content }));
                        Ok(v)
                    },
                    Err(e) => Err(e),
                },
                None => Err(ErrorData {
                    code: INVALID_PARAMS,
                    message: String::from_str("Missing 'name' parameter"),
                }),
            }
        } else {
            let mut msg = String::new();
            msg.append("Tool ");
            msg.append(tool_name.as_str());
            msg.append(" not found");
            Err(ErrorData { code: RESOURCE_NOT_FOUND, message: msg })
        }
    }

    /// The advertised resources: none.
    pub fn list_resources(&self) -> (r: Vec<ResourceDef>)
        ensures
            r@.len() == 0,
    {
        Vec::new()
    }

    /// Read a resource: this provider serves none, so the text is empty.
    pub fn read_resource(&self, _uri: &str) -> (r: Result<String, ResourceError>)
        ensures
            r matches Ok(s) && s@ == Seq::<char>::empty(),
    {
        Ok(String::new())
    }

    /// The advertised prompts: none.
    pub fn list_prompts(&self) -> (r: Vec<PromptDef>)
        ensures
            r@.len() == 0,
    {
        Vec::new()
    }

    /// Serve a prompt: this provider has none, so every name is not
    /// found.
    pub fn get_prompt(&self, prompt_name: &str) -> (r: Result<String, PromptError>)
        ensures
            r matches Err(e) && e matches PromptError::NotFound(m) && m@ == "Prompt "@
                + prompt_name@ + " not found"@,
    {
        let mut msg = String::new();
        msg.append("Prompt ");
        msg.append(prompt_name);
        msg.append(" not found");
        proof {
            assert(msg@ =~= "Prompt "@ + prompt_name@ + " not found"@);
        }
        Err(PromptError::NotFound(msg))
    }
}

/// The instruction text: a fixed head, the tutorial overview, a fixed
/// tail.
pub open spec fn spec_instructions(files: Seq<TutorialFile>) -> Seq<char> {
    INSTRUCTIONS_HEAD@ + spec_overview(files) + INSTRUCTIONS_TAIL@
}

/// Opening of the instruction text handed to the model.
pub const INSTRUCTIONS_HEAD: &'static str = "Because the tutorial extension is enabled, be aware that the user may be new to using Goose\nor looking for help with specific features. Proactively offer relevant tutorials when appropriate.\n\nAvailable tutorials:\n";

/// Closing of the instruction text handed to the model.
pub const INSTRUCTIONS_TAIL: &'static str = "\nThe specific content of the tutorial are available in by running load_tutorial.\nTo run through a tutorial, make sure to be interactive with the user. Don't run more than\na few related tool calls in a row. Make sure to prompt the user for understanding and participation.\n\n**Important**: Make sure that you provide guidance or info *before* you run commands, as the command will\nrun immediately for the user. For example while running a game tutorial, let the user know what to expect\nbefore you run a command to start the game itself.\n";

} // verus!
