use vstd::prelude::*;
use crate::error::BbDhtError;

verus! {

/// Where the lookup of an agent in a space stands. An agent exists in a space
/// only if the space's table exists and holds an item at the agent's address.
#[derive(Debug)]
pub enum AgentExists {
    /// The next question: does the space's table exist?
    CheckTable,
    /// The table exists; the next question: does it hold an item at the
    /// agent's address?
    GetAgentItem,
    /// The answer.
    Done(Result<bool, BbDhtError>),
}

/// The answer to the question that the lookup asked.
#[derive(Debug)]
pub enum AgentExistsEvent {
    /// Whether the table exists, or why that could not be told.
    TableChecked(Result<bool, BbDhtError>),
    /// Whether the table holds an item at the agent's address, or why that
    /// could not be told.
    ItemFetched(Result<bool, BbDhtError>),
}

/// The next stand of a lookup after an answer. An answer to another question
/// than the one asked leaves the lookup where it is.
pub open spec fn agent_exists_next(step: AgentExists, event: AgentExistsEvent) -> AgentExists {
    match (step, event) {
        (AgentExists::CheckTable, AgentExistsEvent::TableChecked(Err(e))) => AgentExists::Done(Err(e)),
        (AgentExists::CheckTable, AgentExistsEvent::TableChecked(Ok(exists))) => {
            if exists {
                AgentExists::GetAgentItem
            } else {
                AgentExists::Done(Ok(false))
            }
        },
        (AgentExists::GetAgentItem, AgentExistsEvent::ItemFetched(found)) => AgentExists::Done(found),
        (step, _) => step,
    }
}

/// What a lookup answers from the two answers it may get: an error of the
/// table check, `false` if there is no table, else the item lookup's answer.
pub open spec fn agent_exists_answer(table: Result<bool, BbDhtError>, item: Result<bool, BbDhtError>) -> Result<bool, BbDhtError> {
    match table {
        Err(e) => Err(e),
        Ok(exists) => if exists {
            item
        } else {
            Ok(false)
        },
    }
}

impl AgentExists {
    /// A lookup that has asked nothing yet.
    pub fn start() -> (r: AgentExists)
        ensures
            r is CheckTable,
    {
        AgentExists::CheckTable
    }
}

/// One step of the lookup of an agent in a space: takes the answer to the
/// question asked, and gives the next question or the answer.
pub fn agent_exists(step: AgentExists, event: AgentExistsEvent) -> (r: AgentExists)
    ensures
        r == agent_exists_next(step, event),
{
    match (step, event) {
        (AgentExists::CheckTable, AgentExistsEvent::TableChecked(Err(e))) => AgentExists::Done(Err(e)),
        (AgentExists::CheckTable, AgentExistsEvent::TableChecked(Ok(exists))) => {
            if exists {
                AgentExists::GetAgentItem
            } else {
                AgentExists::Done(Ok(false))
            }
        },
        (AgentExists::GetAgentItem, AgentExistsEvent::ItemFetched(found)) => AgentExists::Done(found),
        (step, _) => step,
    }
}

/// A lookup that gets the table's answer and then, if it asks, the item's
/// answer, ends with `agent_exists_answer` of the two.
pub proof fn lemma_agent_exists_run(table: Result<bool, BbDhtError>, item: Result<bool, BbDhtError>)
    ensures
        ({
            let after_table = agent_exists_next(AgentExists::CheckTable, AgentExistsEvent::TableChecked(table));
            let done = if after_table is GetAgentItem {
                agent_exists_next(after_table, AgentExistsEvent::ItemFetched(item))
            } else {
                after_table
            };
            done == AgentExists::Done(agent_exists_answer(table, item))
        }),
{
}

/// An agent exists only in a space whose table exists.
pub proof fn lemma_agent_needs_space(table: Result<bool, BbDhtError>, item: Result<bool, BbDhtError>)
    ensures
        agent_exists_answer(table, item) == Ok::<bool, BbDhtError>(true) ==> table == Ok::<bool, BbDhtError>(true),
        table == Ok::<bool, BbDhtError>(false) ==> agent_exists_answer(table, item) == Ok::<bool, BbDhtError>(false),
{
}

} // verus!
