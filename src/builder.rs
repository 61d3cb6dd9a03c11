//! Builders of agents and the stock templates.

use vstd::prelude::*;

use crate::types::{AgentTemplate, PersonalAssistantType, ResearchDepth, ResearchDomain};

verus! {

/// Creates agents from blueprints.
#[derive(Debug)]
pub struct AgentBuilder;

impl AgentBuilder {
    pub fn new() -> (r: AgentBuilder) {
        AgentBuilder
    }
}

/// Visual editor of agent flows.
#[derive(Debug)]
pub struct VisualBuilder;

impl VisualBuilder {
    pub fn new() -> (r: VisualBuilder) {
        VisualBuilder
    }
}

/// A general-purpose personal assistant.
pub fn get_personal_assistant_template() -> (r: AgentTemplate)
    ensures
        r == personal_assistant_template(),
{
    AgentTemplate::PersonalAssistant { specialization: PersonalAssistantType::GeneralPurpose }
}

/// A research assistant in the general domain that works in detail.
pub fn get_research_assistant_template() -> (r: AgentTemplate)
    ensures
        r == research_assistant_template(),
{
    AgentTemplate::ResearchAssistant { domain: ResearchDomain::General, depth: ResearchDepth::Detailed }
}

/// The stock templates: the personal assistant, then the research assistant.
pub fn get_all_templates() -> (r: Vec<AgentTemplate>)
    ensures
        r@.len() == 2,
        r@[0] == personal_assistant_template(),
        r@[1] == research_assistant_template(),
{
    vec![get_personal_assistant_template(), get_research_assistant_template()]
}

/// The stock personal assistant.
pub open spec fn personal_assistant_template() -> AgentTemplate {
    AgentTemplate::PersonalAssistant { specialization: PersonalAssistantType::GeneralPurpose }
}

/// The stock research assistant.
pub open spec fn research_assistant_template() -> AgentTemplate {
    AgentTemplate::ResearchAssistant { domain: ResearchDomain::General, depth: ResearchDepth::Detailed }
}

} // verus!
