//! The names that the command line agent goes by.

use vstd::prelude::*;

verus! {

/// The names of the agent, as the terminal's registry of agents gives them.
#[derive(Debug, PartialEq)]
pub struct AgentNames {
    /// What the agent is called in running text.
    pub title: String,
    /// Its name in lower case, as model identifiers and its settings directory have it.
    pub slug: String,
    /// The file in which a project keeps its notes for the agent.
    pub memory_file: String,
}

/// The mathematical content of an `AgentNames`.
pub struct AgentView {
    pub title: Seq<char>,
    pub slug: Seq<char>,
    pub memory_file: Seq<char>,
}

impl View for AgentNames {
    type V = AgentView;

    open spec fn view(&self) -> AgentView {
        AgentView { title: self.title@, slug: self.slug@, memory_file: self.memory_file@ }
    }
}

} // verus!
