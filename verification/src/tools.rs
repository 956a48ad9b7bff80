//! The tool registry: the tools that the model and the extensions may call,
//! by name. Names are compared letter for letter.

use crate::provider::{clone_tool_defs, tool_defs_view, ToolDef, ToolDefV};
use crate::text::{chars_of, str_eq, str_matches};
use vstd::prelude::*;

verus! {

/// Whether a name is among the names of a whitelist.
pub open spec fn is_enabled(whitelist: Seq<&str>, name: Seq<char>) -> bool {
    exists|k: int| 0 <= k < whitelist.len() && (#[trigger] whitelist[k])@ == name
}

/// The tools whose names are on the whitelist, in the order in which they
/// are given.
pub open spec fn enabled_tools(all: Seq<ToolDefV>, whitelist: Seq<&str>) -> Seq<ToolDefV>
    decreases all.len(),
{
    if all.len() == 0 {
        Seq::empty()
    } else if is_enabled(whitelist, all.last().name) {
        enabled_tools(all.drop_last(), whitelist).push(all.last())
    } else {
        enabled_tools(all.drop_last(), whitelist)
    }
}

/// The position of the first of the first `limit` tools with the given
/// name.
pub open spec fn tool_position(tools: Seq<ToolDefV>, name: Seq<char>, limit: int) -> Option<int>
    decreases limit,
{
    if limit <= 0 || limit > tools.len() {
        None
    } else {
        match tool_position(tools, name, limit - 1) {
            Some(i) => Some(i),
            None => if tools[limit - 1].name == name {
                Some(limit - 1)
            } else {
                None
            },
        }
    }
}

/// Once a tool is found, it stays the first one.
pub proof fn lemma_tool_position_stays(tools: Seq<ToolDefV>, name: Seq<char>, found: int, limit: int)
    requires
        tool_position(tools, name, found) is Some,
        found <= limit <= tools.len(),
    ensures
        tool_position(tools, name, limit) == tool_position(tools, name, found),
    decreases limit - found,
{
    if found < limit {
        lemma_tool_position_stays(tools, name, found, limit - 1);
    }
}

/// The tools that may be called.
#[derive(Debug, Clone)]
pub struct ToolRegistry {
    pub tools: Vec<ToolDef>,
}

/// Whether a name is on the whitelist.
pub fn on_whitelist(whitelist: &[&str], name: &str) -> (r: bool)
    ensures
        r == is_enabled(whitelist@, name@),
{
    let mut i: usize = 0;
    while i < whitelist.len()
        invariant
            i <= whitelist.len(),
            forall|k: int| 0 <= k < i ==> (#[trigger] whitelist@[k])@ != name@,
        decreases whitelist.len() - i,
    {
        if str_eq(whitelist[i], name) {
            return true;
        }
        i += 1;
    }
    false
}

impl ToolRegistry {
    /// The registry of those of the given tools whose names are on the
    /// whitelist.
    pub fn new(all: Vec<ToolDef>, whitelist: &[&str]) -> (r: Self)
        ensures
            tool_defs_view(r.tools@) == enabled_tools(tool_defs_view(all@), whitelist@),
    {
        let mut tools: Vec<ToolDef> = Vec::new();
        let ghost views = tool_defs_view(all@);
        let mut i: usize = 0;
        assert(tool_defs_view(tools@) =~= enabled_tools(views.take(0), whitelist@));
        while i < all.len()
            invariant
                i <= all.len(),
                views == tool_defs_view(all@),
                tool_defs_view(tools@) == enabled_tools(views.take(i as int), whitelist@),
            decreases all.len() - i,
        {
            proof {
                assert(views.take(i + 1).drop_last() =~= views.take(i as int));
                assert(views.take(i + 1).last() == all@[i as int]@);
            }
            if on_whitelist(whitelist, all[i].name.as_str()) {
                tools.push(all[i].clone());
                assert(tool_defs_view(tools@) =~= enabled_tools(views.take(i + 1), whitelist@));
            }
            i += 1;
        }
        assert(views.take(i as int) =~= views);
        ToolRegistry { tools }
    }

    /// The tool with the given name, if one is registered.
    pub fn get(&self, name: &str) -> (r: Option<&ToolDef>)
        ensures
            match r {
                Some(tool) => {
                    let at = tool_position(tool_defs_view(self.tools@), name@, self.tools@.len() as int);
                    at is Some && tool_defs_view(self.tools@)[at->Some_0] == tool@
                },
                None => tool_position(tool_defs_view(self.tools@), name@, self.tools@.len() as int).is_none(),
            },
    {
        let wanted = chars_of(name);
        let ghost views = tool_defs_view(self.tools@);
        let mut i: usize = 0;
        while i < self.tools.len()
            invariant
                i <= self.tools.len(),
                wanted@ == name@,
                views == tool_defs_view(self.tools@),
                tool_position(views, name@, i as int).is_none(),
            decreases self.tools.len() - i,
        {
            proof {
                assert(views[i as int] == self.tools@[i as int]@);
            }
            if str_matches(self.tools[i].name.as_str(), &wanted) {
                proof {
                    assert(tool_position(views, name@, i + 1) == Some(i as int));
                    lemma_tool_position_stays(views, name@, i + 1, views.len() as int);
                }
                return Some(&self.tools[i]);
            }
            i += 1;
        }
        None
    }

    /// The names of the registered tools, in order.
    pub fn names(&self) -> (r: Vec<String>)
        ensures
            r@.len() == self.tools@.len(),
            forall|k: int| 0 <= k < r@.len() ==> (#[trigger] r@[k])@ == self.tools@[k].name@,
    {
        let mut out: Vec<String> = Vec::new();
        let mut i: usize = 0;
        while i < self.tools.len()
            invariant
                i <= self.tools.len(),
                out@.len() == i,
                forall|k: int| 0 <= k < i ==> (#[trigger] out@[k])@ == self.tools@[k].name@,
            decreases self.tools.len() - i,
        {
            out.push(self.tools[i].name.clone());
            i += 1;
        }
        out
    }

    /// The definitions of the registered tools, as the model is told of
    /// them.
    pub fn tools(&self) -> (r: Vec<ToolDef>)
        ensures
            tool_defs_view(r@) == tool_defs_view(self.tools@),
    {
        clone_tool_defs(&self.tools)
    }
}

} // verus!
