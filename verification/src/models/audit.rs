//! The vocabulary of the audit trail.

use vstd::prelude::*;

verus! {

/// Risk level classification for banking compliance.
#[derive(Debug, Clone, Copy, PartialEq, Eq, Structural)]
pub enum RiskLevel {
    Low,
    Medium,
    High,
    Critical,
}

/// The name of a risk level.
pub open spec fn risk_name(level: RiskLevel) -> Seq<char> {
    match level {
        RiskLevel::Low => "low"@,
        RiskLevel::Medium => "medium"@,
        RiskLevel::High => "high"@,
        RiskLevel::Critical => "critical"@,
    }
}

impl RiskLevel {
    /// The name of the risk level.
    pub fn as_text(&self) -> (r: &'static str)
        ensures
            r@ == risk_name(*self),
    {
        match self {
            RiskLevel::Low => "low",
            RiskLevel::Medium => "medium",
            RiskLevel::High => "high",
            RiskLevel::Critical => "critical",
        }
    }
}

/// Types of actions logged in the audit trail.
#[derive(Debug, Clone, Copy, PartialEq, Eq, Structural)]
pub enum AuditActionType {
    ToolCall,
    LlmRequest,
    LlmResponse,
    GatePass,
    GateFail,
    FileWrite,
    FileDelete,
    CommandExec,
    SandboxCreate,
    SandboxDestroy,
    PrCreated,
    PrMerged,
    HumanApproval,
    HumanRejection,
    Escalation,
}

/// The name of an action type.
pub open spec fn action_name(action: AuditActionType) -> Seq<char> {
    match action {
        AuditActionType::ToolCall => "tool_call"@,
        AuditActionType::LlmRequest => "llm_request"@,
        AuditActionType::LlmResponse => "llm_response"@,
        AuditActionType::GatePass => "gate_pass"@,
        AuditActionType::GateFail => "gate_fail"@,
        AuditActionType::FileWrite => "file_write"@,
        AuditActionType::FileDelete => "file_delete"@,
        AuditActionType::CommandExec => "command_exec"@,
        AuditActionType::SandboxCreate => "sandbox_create"@,
        AuditActionType::SandboxDestroy => "sandbox_destroy"@,
        AuditActionType::PrCreated => "pr_created"@,
        AuditActionType::PrMerged => "pr_merged"@,
        AuditActionType::HumanApproval => "human_approval"@,
        AuditActionType::HumanRejection => "human_rejection"@,
        AuditActionType::Escalation => "escalation"@,
    }
}

impl AuditActionType {
    /// The name of the action type.
    pub fn as_text(&self) -> (r: &'static str)
        ensures
            r@ == action_name(*self),
    {
        match self {
            AuditActionType::ToolCall => "tool_call",
            AuditActionType::LlmRequest => "llm_request",
            AuditActionType::LlmResponse => "llm_response",
            AuditActionType::GatePass => "gate_pass",
            AuditActionType::GateFail => "gate_fail",
            AuditActionType::FileWrite => "file_write",
            AuditActionType::FileDelete => "file_delete",
            AuditActionType::CommandExec => "command_exec",
            AuditActionType::SandboxCreate => "sandbox_create",
            AuditActionType::SandboxDestroy => "sandbox_destroy",
            AuditActionType::PrCreated => "pr_created",
            AuditActionType::PrMerged => "pr_merged",
            AuditActionType::HumanApproval => "human_approval",
            AuditActionType::HumanRejection => "human_rejection",
            AuditActionType::Escalation => "escalation",
        }
    }
}

/// A risk level can be told by its name.
pub proof fn law_risk_names_differ(a: RiskLevel, b: RiskLevel)
    requires
        a != b,
    ensures
        risk_name(a) != risk_name(b),
{
    reveal_strlit("low");
    reveal_strlit("medium");
    reveal_strlit("high");
    reveal_strlit("critical");
    assert(risk_name(a).len() != risk_name(b).len());
}

/// An action type can be told by its name.
pub proof fn law_action_names_differ(a: AuditActionType, b: AuditActionType)
    requires
        a != b,
    ensures
        action_name(a) != action_name(b),
{
    reveal_strlit("tool_call");
    reveal_strlit("llm_request");
    reveal_strlit("llm_response");
    reveal_strlit("gate_pass");
    reveal_strlit("gate_fail");
    reveal_strlit("file_write");
    reveal_strlit("file_delete");
    reveal_strlit("command_exec");
    reveal_strlit("sandbox_create");
    reveal_strlit("sandbox_destroy");
    reveal_strlit("pr_created");
    reveal_strlit("pr_merged");
    reveal_strlit("human_approval");
    reveal_strlit("human_rejection");
    reveal_strlit("escalation");
    assert(action_name(a).len() != action_name(b).len() || action_name(a)[1] != action_name(b)[1]
        || action_name(a)[5] != action_name(b)[5] || action_name(a)[7] != action_name(b)[7]);
}

} // verus!
