//! The update as a set of tools that a program offers to others.

use vstd::prelude::*;

verus! {

/// The arguments of the tools: there are none.
#[derive(Debug, Clone, Copy)]
pub struct EmptyArgs {}

impl Default for EmptyArgs {
    fn default() -> (r: Self)
        ensures
            r == (EmptyArgs {  }),
    {
        EmptyArgs {  }
    }
}

/// One of the tools.
#[derive(Debug, Clone, Copy, PartialEq, Eq, Structural)]
pub enum UpdateTool {
    /// Reports what is installed and what is staged.
    Status,
    /// Checks for a release to update to.
    Check,
    /// Updates.
    Run,
}

impl UpdateTool {
    /// All tools.
    pub fn all() -> (r: Vec<UpdateTool>)
        ensures
            r@ == seq![UpdateTool::Status, UpdateTool::Check, UpdateTool::Run],
    {
        vec![UpdateTool::Status, UpdateTool::Check, UpdateTool::Run]
    }

    /// The name under which the tool is offered.
    pub open spec fn tool_name(self) -> Seq<char> {
        match self {
            UpdateTool::Status => "self_update_status"@,
            UpdateTool::Check => "self_update_check"@,
            UpdateTool::Run => "self_update_run"@,
        }
    }

    /// The name under which the tool is offered.
    pub fn name(&self) -> (r: &'static str)
        ensures
            r@ == self.tool_name(),
    {
        match self {
            UpdateTool::Status => "self_update_status",
            UpdateTool::Check => "self_update_check",
            UpdateTool::Run => "self_update_run",
        }
    }

    /// What the tool is said to do.
    pub open spec fn told(self) -> Seq<char> {
        match self {
            UpdateTool::Status => "Report the current self-update status of this CLI."@,
            UpdateTool::Check =>
                "Check the GitHub releases feed for a newer version of this CLI."@,
            UpdateTool::Run =>
                "Stage the latest release as <tool>_next and atomically promote it."@,
        }
    }

    /// What the tool is said to do.
    pub fn description(&self) -> (r: &'static str)
        ensures
            r@ == self.told(),
            r@ == (match self {
                UpdateTool::Status => "Report the current self-update status of this CLI."@,
                UpdateTool::Check =>
                    "Check the GitHub releases feed for a newer version of this CLI."@,
                UpdateTool::Run =>
                    "Stage the latest release as <tool>_next and atomically promote it."@,
            }),
    {
        match self {
            UpdateTool::Status => "Report the current self-update status of this CLI.",
            UpdateTool::Check => "Check the GitHub releases feed for a newer version of this CLI.",
            UpdateTool::Run =>
                "Stage the latest release as <tool>_next and atomically promote it.",
        }
    }
}

/// No two tools share a name.
pub proof fn law_tool_names_differ(a: UpdateTool, b: UpdateTool)
    ensures
        a.tool_name() == b.tool_name() ==> a == b,
{
    reveal_strlit("self_update_status");
    reveal_strlit("self_update_check");
    reveal_strlit("self_update_run");
    assert("self_update_status"@.len() == 18);
    assert("self_update_check"@.len() == 17);
    assert("self_update_run"@.len() == 15);
}

/// What is said of a tool goes with its name: the first reports, the second checks, and the third
/// stages and promotes.
pub proof fn law_tools_are_told_apart(tool: UpdateTool)
    ensures
        ({
            let (verb, rest) = if tool.tool_name() == "self_update_status"@ {
                ("Report"@, " the current self-update status of this CLI."@)
            } else if tool.tool_name() == "self_update_check"@ {
                ("Check"@, " the GitHub releases feed for a newer version of this CLI."@)
            } else {
                ("Stage"@, " the latest release as <tool>_next and atomically promote it."@)
            };
            tool.told() == verb + rest
        }),
        tool.tool_name() == "self_update_status"@ <==> tool is Status,
        tool.tool_name() == "self_update_check"@ <==> tool is Check,
        tool.tool_name() == "self_update_run"@ <==> tool is Run,
{
    law_tool_names_differ(tool, UpdateTool::Status);
    law_tool_names_differ(tool, UpdateTool::Check);
    law_tool_names_differ(tool, UpdateTool::Run);
    reveal_strlit("Report");
    reveal_strlit(" the current self-update status of this CLI.");
    reveal_strlit("Report the current self-update status of this CLI.");
    reveal_strlit("Check");
    reveal_strlit(" the GitHub releases feed for a newer version of this CLI.");
    reveal_strlit("Check the GitHub releases feed for a newer version of this CLI.");
    reveal_strlit("Stage");
    reveal_strlit(" the latest release as <tool>_next and atomically promote it.");
    reveal_strlit("Stage the latest release as <tool>_next and atomically promote it.");
    assert("Report"@ + " the current self-update status of this CLI."@
        == "Report the current self-update status of this CLI."@);
    assert("Check"@ + " the GitHub releases feed for a newer version of this CLI."@
        == "Check the GitHub releases feed for a newer version of this CLI."@);
    assert("Stage"@ + " the latest release as <tool>_next and atomically promote it."@
        == "Stage the latest release as <tool>_next and atomically promote it."@);
}

} // verus!
