//! The Ukrainian text-to-speech tool provider: its advertised tools and
//! the decisions its dispatch makes.
//!
//! The speech engine itself runs behind a foreign-language bridge at the
//! edge; the library decides which engine call a tool call asks for
//! (with argument defaults) and how the engine's outcome is wrapped into
//! content, and both decisions are checked.

use vstd::prelude::*;
use vstd::string::StringExecFns;

use crate::args::{spec_lookup, ToolArguments};
use crate::message::{Content, ErrorData, TextContent, INVALID_PARAMS, METHOD_NOT_FOUND};
use crate::registry::{CapabilitiesBuilder, ParamDef, PromptDef, PromptError, ResourceDef,
    ResourceError, ServerCapabilities, ToolDef};

verus! {

/// Which engine call a tool call asks for.
#[derive(Debug, PartialEq, Eq)]
pub enum TtsAction {
    /// Synthesize speech for a text, with a voice and a language.
    Speak { text: String, voice: String, lang: String },
    /// List the available voices.
    ListVoices,
    /// Report the engine's status.
    Status,
}

/// The Ukrainian text-to-speech provider.
#[derive(Debug, PartialEq, Eq)]
pub struct UkrainianTTSRouter {
    pub tools: Vec<ToolDef>,
    pub instructions: String,
}

impl Default for UkrainianTTSRouter {
    /// The provider as `new` builds it.
    fn default() -> (r: Self)
        ensures
            r.tools@.len() == 3,
    {
        Self::new()
    }
}

impl UkrainianTTSRouter {
    /// Build the provider: the three tools it advertises and its
    /// instruction text.
    pub fn new() -> (r: UkrainianTTSRouter)
        ensures
            r.tools@.len() == 3,
            r.tools@[0].name@ == "say_tts"@,
            r.tools@[0].params@.len() == 3,
            r.tools@[0].params@[0].name@ == "text"@ && r.tools@[0].params@[0].required,
            r.tools@[0].params@[1].name@ == "voice"@ && !r.tools@[0].params@[1].required,
            r.tools@[0].params@[2].name@ == "lang"@ && !r.tools@[0].params@[2].required,
            r.tools@[1].name@ == "list_voices"@,
            r.tools@[2].name@ == "tts_status"@,
    {
        let mut say_params: Vec<ParamDef> = Vec::new();
        say_params.push(ParamDef {
            name: String::from_str("text"),
            description: String::from_str("Text to convert to speech"),
            required: true,
            default: None,
        });
        say_params.push(ParamDef {
            name: String::from_str("voice"),
            description: String::from_str(
                "Voice to use (mykyta, oleksa, tetiana, lada, google)",
            ),
            required: false,
            default: Some(String::from_str("tetiana")),
        });
        say_params.push(ParamDef {
            name: String::from_str("lang"),
            description: String::from_str(
                "Language code (uk for Ukrainian, en for English)",
            ),
            required: false,
            default: Some(String::from_str("uk")),
        });
        let say_tts = ToolDef {
            name: String::from_str("say_tts"),
            description: String::from_str(
                "Converts text to speech using Ukrainian TTS engine with voice and language selection",
            ),
            params: say_params,
            annotations: None,
        };
        let list_voices = ToolDef {
            name: String::from_str("list_voices"),
            description: String::from_str("Lists all available TTS voices"),
            params: Vec::new(),
            annotations: None,
        };
        let tts_status = ToolDef {
            name: String::from_str("tts_status"),
            description: String::from_str("Gets the current status of the TTS engine"),
            params: Vec::new(),
            annotations: None,
        };
        let mut tools: Vec<ToolDef> = Vec::new();
        tools.push(say_tts);
        tools.push(list_voices);
        tools.push(tts_status);
        UkrainianTTSRouter {
            tools,
            instructions: String::from_str(
                "Ukrainian TTS (Text-to-Speech) MCP server. Supports Ukrainian and English text-to-speech with multiple voice options including high-quality Ukrainian voices (tetiana (default), mykyta, oleksa, lada) and Google TTS as fallback.",
            ),
        }
    }

    /// The provider's name.
    pub fn name(&self) -> (r: String)
        ensures
            r@ == "ukrainian-tts"@,
    {
        String::from_str("ukrainian-tts")
    }

    /// The provider's instruction text.
    pub fn instructions(&self) -> (r: String)
        ensures
            r@ == self.instructions@,
    {
        self.instructions.clone()
    }

    /// The provider's advertised capabilities: tools, without list-change
    /// notifications.
    pub fn capabilities(&self) -> (r: ServerCapabilities)
        ensures
            r.tools == Some(false),
            r.prompts is None,
            r.resources is None,
    {
        CapabilitiesBuilder::new().with_tools(false).build()
    }

    /// The advertised tools.
    pub fn list_tools(&self) -> (r: Vec<ToolDef>)
        ensures
            r.deep_view() == self.tools.deep_view(),
    {
        let n = self.tools.len();
        let mut out: Vec<ToolDef> = Vec::new();
        let mut i: usize = 0;
        while i < n
            invariant
                i <= n,
                n == self.tools@.len(),
                out@.len() == i,
                forall|j: int|
                    0 <= j < i ==> #[trigger] out@[j].deep_view() == self.tools@[j].deep_view(),
            decreases n - i,
        {
            out.push(self.tools[i].clone());
            i = i + 1;
        }
        proof {
            assert(out.deep_view() =~= self.tools.deep_view());
        }
        out
    }

    /// Decide which engine call a tool call asks for: `say_tts` needs a
    /// text (voice defaults to `tetiana`, language to `uk`); the two
    /// query tools take no arguments; anything else is unknown.
    pub fn plan_tool_call(&self, name: &String, arguments: &ToolArguments) -> (r: Result<
        TtsAction,
        ErrorData,
    >)
        ensures
            name@ == "say_tts"@ ==> match spec_lookup(arguments.entries@, "text"@) {
                Some(text) => r matches Ok(a) && a matches TtsAction::Speak {
                    text: got_text,
                    voice,
                    lang,
                } && got_text@ == text@ && voice@ == (match spec_lookup(
                    arguments.entries@,
                    "voice"@,
                ) {
                    Some(v) => v@,
                    None => "tetiana"@,
                }) && lang@ == (match spec_lookup(arguments.entries@, "lang"@) {
                    Some(l) => l@,
                    None => "uk"@,
                }),
                None => r matches Err(e) && e.code == INVALID_PARAMS,
            },
            name@ == "list_voices"@ ==> r == Ok::<TtsAction, ErrorData>(TtsAction::ListVoices),
            name@ == "tts_status"@ ==> r == Ok::<TtsAction, ErrorData>(TtsAction::Status),
            name@ != "say_tts"@ && name@ != "list_voices"@ && name@ != "tts_status"@ ==> (r
                matches Err(e) && e.code == METHOD_NOT_FOUND),
    {
        proof {
            reveal_strlit("say_tts");
            reveal_strlit("list_voices");
            reveal_strlit("tts_status");
            assert("say_tts"@.len() == 7);
            assert("list_voices"@.len() == 11);
            assert("tts_status"@.len() == 10);
        }
        let say_lit = String::from_str("say_tts");
        let voices_lit = String::from_str("list_voices");
        let status_lit = String::from_str("tts_status");
        if *name == say_lit {
            let text_key = String::from_str("text");
            match arguments.get(&text_key) {
                Some(text) => {
                    let voice_key = String::from_str("voice");
                    let voice = match arguments.get(&voice_key) {
                        Some(v) => v.clone(),
                        None => String::from_str("tetiana"),
                    };
                    let lang_key = String::from_str("lang");
                    let lang = match arguments.get(&lang_key) {
                        Some(l) => l.clone(),
                        None => String::from_str("uk"),
                    };
                    Ok(TtsAction::Speak { text: text.clone(), voice, lang })
                },
                None => Err(ErrorData {
                    code: INVALID_PARAMS,
                    message: String::from_str("Missing required parameter: text"),
                }),
            }
        } else if *name == voices_lit {
            Ok(TtsAction::ListVoices)
        } else if *name == status_lit {
            Ok(TtsAction::Status)
        } else {
            let mut msg = String::new();
            msg.append("Unknown tool: ");
            msg.append(name.as_str());
            Err(ErrorData { code: METHOD_NOT_FOUND, message: msg })
        }
    }

    /// Wrap the engine's outcome as content: a successful result is
    /// returned as text; an engine failure becomes explanatory text (the
    /// call itself still succeeds, so the model sees the failure).
    pub fn wrap_tts_outcome(&self, action: &TtsAction, outcome: Result<String, ErrorData>) -> (r:
        Vec<Content>)
        ensures
            r@.len() == 1,
            r@[0] is Text,
            match outcome {
                Ok(result) => r@[0]->Text_0.text@ == result@,
                Err(e) => r@[0]->Text_0.text@ == (match action {
                    TtsAction::Speak { .. } => "TTS Error: "@,
                    TtsAction::ListVoices => "Error getting voices: "@,
                    TtsAction::Status => "Error getting status: "@,
                }) + e.message@,
            },
    {
        let text = match outcome {
            Ok(result) => result,
            Err(e) => {
                let mut msg = String::new();
                match action {
                    TtsAction::Speak { .. } => msg.append("TTS Error: "),
                    TtsAction::ListVoices => msg.append("Error getting voices: "),
                    TtsAction::Status => msg.append("Error getting status: "),
                }
                msg.append(e.message.as_str());
                msg
            },
        };
        let mut out: Vec<Content> = Vec::new();
        out.push(Content::Text(TextContent { text }));
        out
    }

    /// The advertised prompts: none.
    pub fn list_prompts(&self) -> (r: Vec<PromptDef>)
        ensures
            r@.len() == 0,
    {
        Vec::new()
    }

    /// Serve a prompt: this provider has none.
    pub fn get_prompt(&self, _name: &String) -> (r: Result<String, PromptError>)
        ensures
            r matches Err(e) && e matches PromptError::NotFound(m) && m@
                == "No prompts available"@,
    {
        Err(PromptError::NotFound(String::from_str("No prompts available")))
    }

    /// The advertised resources: none.
    pub fn list_resources(&self) -> (r: Vec<ResourceDef>)
        ensures
            r@.len() == 0,
    {
        Vec::new()
    }

    /// Read a resource: this provider serves none.
    pub fn read_resource(&self, _uri: &String) -> (r: Result<String, ResourceError>)
        ensures
            r matches Err(e) && e matches ResourceError::NotFound(m) && m@
                == "No resources available"@,
    {
        Err(ResourceError::NotFound(String::from_str("No resources available")))
    }
}

} // verus!
