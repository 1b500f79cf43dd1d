//! What the store answers to the board's requests, and the steps of a
//! removal, which deletes a row and numbers the others anew as one
//! transaction.

use vstd::prelude::*;

verus! {

/// The answer to a request: `Success`, or the message of the store's error.
pub open spec fn reply_text(outcome: Result<(), Seq<char>>) -> Seq<char> {
    match outcome {
        Ok(_) => "Success"@,
        Err(message) => message,
    }
}

/// The answer to a request, from how the store's work ended: `Success`, or
/// the message of the store's error, letter for letter.
pub fn reply(outcome: Result<(), String>) -> (answer: String)
    ensures
        answer@ == reply_text(
            match outcome {
                Ok(_) => Ok(()),
                Err(message) => Err(message@),
            },
        ),
{
    match outcome {
        Ok(_) => "Success".to_owned(),
        Err(message) => message,
    }
}

/// A statement of the removal.
#[derive(Clone, Copy, Debug, PartialEq, Eq, Structural)]
pub enum RemovalStage {
    /// Delete the row with the identifier.
    Delete,
    /// Number the rows that stay from 1, in the order of their identifiers.
    Renumber,
}

/// What a removal does next.
#[derive(Debug)]
pub enum RemovalStep {
    /// Run this statement inside the transaction.
    Run(RemovalStage),
    /// Both statements are done: commit the transaction and answer `Success`.
    Commit,
    /// A statement failed: give the transaction up, so that nothing of it
    /// stays, and answer with the store's message.
    Abandon(String),
}

/// What a removal step is in contracts.
pub enum RemovalStepView {
    Run(RemovalStage),
    Commit,
    Abandon(Seq<char>),
}

impl View for RemovalStep {
    type V = RemovalStepView;

    open spec fn view(&self) -> RemovalStepView {
        match self {
            RemovalStep::Run(stage) => RemovalStepView::Run(*stage),
            RemovalStep::Commit => RemovalStepView::Commit,
            RemovalStep::Abandon(message) => RemovalStepView::Abandon(message@),
        }
    }
}

/// The step that follows a statement of the removal, from how that statement
/// ended: after a failure the removal is given up with the store's message;
/// after the deletion comes the renumbering, after the renumbering the
/// commit.
pub open spec fn step_after(stage: RemovalStage, outcome: Result<(), Seq<char>>) -> RemovalStepView {
    match outcome {
        Err(message) => RemovalStepView::Abandon(message),
        Ok(_) => match stage {
            RemovalStage::Delete => RemovalStepView::Run(RemovalStage::Renumber),
            RemovalStage::Renumber => RemovalStepView::Commit,
        },
    }
}

/// The answer with which a removal ends; none while a statement is still to
/// be run.
pub open spec fn final_reply(step: RemovalStepView) -> Option<Seq<char>> {
    match step {
        RemovalStepView::Run(_) => None,
        RemovalStepView::Commit => Some(reply_text(Ok(()))),
        RemovalStepView::Abandon(message) => Some(reply_text(Err(message))),
    }
}

/// The first step of a removal: delete the row.
pub fn removal_start() -> (step: RemovalStep)
    ensures
        step@ == RemovalStepView::Run(RemovalStage::Delete),
{
    RemovalStep::Run(RemovalStage::Delete)
}

/// The step that follows the statement `stage`, given how it ended.
pub fn removal_next(stage: RemovalStage, outcome: Result<(), String>) -> (step: RemovalStep)
    ensures
        step@ == step_after(
            stage,
            match outcome {
                Ok(_) => Ok(()),
                Err(message) => Err(message@),
            },
        ),
{
    match outcome {
        Err(message) => RemovalStep::Abandon(message),
        Ok(_) => match stage {
            RemovalStage::Delete => RemovalStep::Run(RemovalStage::Renumber),
            RemovalStage::Renumber => RemovalStep::Commit,
        },
    }
}

/// The answer with which the removal ends at this step; none while a
/// statement is still to be run.
pub fn removal_reply(step: RemovalStep) -> (answer: Option<String>)
    ensures
        match answer {
            Some(text) => final_reply(step@) == Some(text@),
            None => final_reply(step@) is None,
        },
{
    match step {
        RemovalStep::Run(_) => None,
        RemovalStep::Commit => Some(reply(Ok(()))),
        RemovalStep::Abandon(message) => Some(reply(Err(message))),
    }
}

/// A removal runs at most two statements, and ends with `Success` exactly
/// when both went well; else it ends with the message of the first failure.
pub proof fn law_removal_ends(first: Result<(), Seq<char>>, second: Result<(), Seq<char>>)
    ensures
        match first {
            Err(message) => final_reply(step_after(RemovalStage::Delete, first)) == Some(message),
            Ok(_) => step_after(RemovalStage::Delete, first) == RemovalStepView::Run(
                RemovalStage::Renumber,
            ) && match second {
                Err(message) => final_reply(step_after(RemovalStage::Renumber, second)) == Some(
                    message,
                ),
                Ok(_) => step_after(RemovalStage::Renumber, second) == RemovalStepView::Commit
                    && final_reply(RemovalStepView::Commit) == Some("Success"@),
            },
        },
{
}

} // verus!
