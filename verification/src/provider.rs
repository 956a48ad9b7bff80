//! What the agent hands to a provider: the context of a request and the
//! options of a stream. The provider itself lives outside this crate; it is
//! known here by its three identifiers.

use crate::json::{Json, JsonV};
use crate::model::{messages_view, opt_text, Message, MessageV, ThinkingLevel};
use vstd::prelude::*;

verus! {

/// The identifiers of a provider.
#[derive(Debug, Clone)]
pub struct ProviderInfo {
    pub name: String,
    pub api: String,
    pub model_id: String,
}

/// [`ProviderInfo`] as plain data.
pub struct ProviderInfoV {
    pub name: Seq<char>,
    pub api: Seq<char>,
    pub model_id: Seq<char>,
}

impl View for ProviderInfo {
    type V = ProviderInfoV;

    open spec fn view(&self) -> ProviderInfoV {
        ProviderInfoV { name: self.name@, api: self.api@, model_id: self.model_id@ }
    }
}

/// A tool as the model is told of it.
#[derive(Debug)]
pub struct ToolDef {
    pub name: String,
    pub description: String,
    pub parameters: Json,
}

/// [`ToolDef`] as plain data.
pub struct ToolDefV {
    pub name: Seq<char>,
    pub description: Seq<char>,
    pub parameters: JsonV,
}

impl View for ToolDef {
    type V = ToolDefV;

    open spec fn view(&self) -> ToolDefV {
        ToolDefV {
            name: self.name@,
            description: self.description@,
            parameters: self.parameters@,
        }
    }
}

impl Clone for ToolDef {
    fn clone(&self) -> (r: Self)
        ensures
            r@ == self@,
    {
        ToolDef {
            name: self.name.clone(),
            description: self.description.clone(),
            parameters: self.parameters.clone(),
        }
    }
}

/// The views of a sequence of tool definitions.
pub open spec fn tool_defs_view(defs: Seq<ToolDef>) -> Seq<ToolDefV> {
    defs.map_values(|d: ToolDef| d@)
}

/// A copy of a list of tool definitions.
pub fn clone_tool_defs(defs: &Vec<ToolDef>) -> (r: Vec<ToolDef>)
    ensures
        tool_defs_view(r@) == tool_defs_view(defs@),
{
    let mut out: Vec<ToolDef> = Vec::new();
    let mut i: usize = 0;
    while i < defs.len()
        invariant
            i <= defs.len(),
            out@.len() == i,
            forall|k: int| 0 <= k < i ==> (#[trigger] out@[k])@ == defs@[k]@,
        decreases defs.len() - i,
    {
        out.push(defs[i].clone());
        i += 1;
    }
    assert(tool_defs_view(out@) =~= tool_defs_view(defs@));
    out
}

/// What a provider is asked to continue: the system prompt, the
/// conversation so far and the tools on offer.
#[derive(Debug, Clone)]
pub struct Context {
    pub system_prompt: Option<String>,
    pub messages: Vec<Message>,
    pub tools: Vec<ToolDef>,
}

/// [`Context`] as plain data.
pub struct ContextV {
    pub system_prompt: Option<Seq<char>>,
    pub messages: Seq<MessageV>,
    pub tools: Seq<ToolDefV>,
}

impl View for Context {
    type V = ContextV;

    open spec fn view(&self) -> ContextV {
        ContextV {
            system_prompt: opt_text(self.system_prompt),
            messages: messages_view(self.messages@),
            tools: tool_defs_view(self.tools@),
        }
    }
}

/// The knobs of one stream.
#[derive(Debug, Clone)]
pub struct StreamOptions {
    pub api_key: Option<String>,
    pub headers: Vec<(String, String)>,
    pub thinking_level: Option<ThinkingLevel>,
    pub max_tokens: Option<u32>,
}

impl Default for StreamOptions {
    fn default() -> (r: Self)
        ensures
            r.api_key is None,
            r.headers@.len() == 0,
            r.thinking_level is None,
            r.max_tokens is None,
    {
        StreamOptions { api_key: None, headers: Vec::new(), thinking_level: None, max_tokens: None }
    }
}

} // verus!
