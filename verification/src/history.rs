//! Undo and redo stacks with bounded history.
//!
//! Applying a command pushes it onto the undo stack and clears the redo
//! stack; when the stack is full the oldest entry is dropped first.
//! Undo and redo move commands between the stacks and are atomic:
//! a command that cannot be reversed leaves both the engine and the
//! history untouched.

use crate::commands::{
    execute, spec_applies, spec_error, spec_execute_rel, spec_undo_applies, spec_undo_error,
    spec_undo_rel, undo, Command, CommandError,
};
use crate::engine::Engine;
use vstd::prelude::*;

verus! {

/// Manages the history of commands.
#[derive(Debug)]
pub struct CommandManager {
    pub undo_stack: Vec<Command>,
    pub redo_stack: Vec<Command>,
    /// Most entries the history keeps; older ones are dropped.
    pub max_history: usize,
}

impl CommandManager {
    /// The stacks together never hold more than the configured
    /// capacity, so neither stack ever exceeds it.
    pub open spec fn inv(self) -> bool {
        &&& self.max_history >= 1
        &&& self.undo_stack@.len() + self.redo_stack@.len() <= self.max_history
    }

    /// A fresh, empty history with capacity `max_history`.
    pub fn new(max_history: usize) -> (manager: CommandManager)
        requires
            max_history >= 1,
        ensures
            manager.undo_stack@.len() == 0,
            manager.redo_stack@.len() == 0,
            manager.max_history == max_history,
            manager.inv(),
    {
        CommandManager { undo_stack: Vec::new(), redo_stack: Vec::new(), max_history }
    }

    /// Execute a new command and push it onto the undo stack, dropping
    /// the oldest entry when the history is full.  A new branch of
    /// history begins: the redo stack is cleared.  A command that does
    /// not apply changes nothing, the history included.
    pub fn push(&mut self, command: Command, engine: &mut Engine) -> (outcome: Result<
        (),
        CommandError,
    >)
        requires
            old(self).inv(),
            old(engine).wf(),
        ensures
            final(self).inv(),
            final(engine).wf(),
            final(self).max_history == old(self).max_history,
            outcome is Ok <==> spec_applies(*old(engine), command),
            outcome is Ok ==> ({
                &&& spec_execute_rel(*old(engine), *final(engine), command)
                &&& final(self).redo_stack@.len() == 0
                &&& final(self).undo_stack@ == if old(self).undo_stack@.len() == old(self).max_history {
                    old(self).undo_stack@.drop_first().push(command)
                } else {
                    old(self).undo_stack@.push(command)
                }
                &&& final(self).undo_stack@.len() <= final(self).max_history
            }),
            outcome is Err ==> *final(engine) == *old(engine) && final(self).undo_stack@ == old(self).undo_stack@ && final(self).redo_stack@ == old(self).redo_stack@ && outcome
                == Result::<(), CommandError>::Err(spec_error(*old(engine), command)),
    {
        match execute(&command, engine) {
            Ok(()) => {
                self.undo_stack.push(command);
                self.redo_stack.clear();
                if self.undo_stack.len() > self.max_history {
                    self.undo_stack.remove(0);
                    proof {
                        old(self).undo_stack@.push(command).remove_ensures(0);
                        assert(self.undo_stack@ =~= old(self).undo_stack@.drop_first().push(
                            command,
                        ));
                    }
                }
                Ok(())
            },
            Err(err) => Err(err),
        }
    }

    /// Reverse the most recent command, moving it to the redo stack.
    /// Returns `Ok(false)` when there is nothing to undo.  A command
    /// that cannot be reversed is kept and nothing changes.
    pub fn undo(&mut self, engine: &mut Engine) -> (outcome: Result<bool, CommandError>)
        requires
            old(self).inv(),
            old(engine).wf(),
        ensures
            final(self).inv(),
            final(engine).wf(),
            final(self).max_history == old(self).max_history,
            outcome == Result::<bool, CommandError>::Ok(false) ==> old(self).undo_stack@.len() == 0 && *final(engine) == *old(engine) && final(self).undo_stack@ == old(self).undo_stack@ && final(self).redo_stack@ == old(self).redo_stack@,
            outcome == Result::<bool, CommandError>::Ok(true) ==> ({
                let last = old(self).undo_stack@.last();
                &&& old(self).undo_stack@.len() > 0
                &&& spec_undo_applies(*old(engine), last)
                &&& spec_undo_rel(*old(engine), *final(engine), last)
                &&& final(self).undo_stack@ == old(self).undo_stack@.drop_last()
                &&& final(self).redo_stack@ == old(self).redo_stack@.push(last)
            }),
            outcome is Err ==> ({
                let last = old(self).undo_stack@.last();
                &&& old(self).undo_stack@.len() > 0
                &&& !spec_undo_applies(*old(engine), last)
                &&& *final(engine) == *old(engine)
                &&& final(self).undo_stack@ == old(self).undo_stack@
                &&& final(self).redo_stack@ == old(self).redo_stack@
                &&& outcome == Result::<bool, CommandError>::Err(
                    spec_undo_error(*old(engine), last),
                )
            }),
    {
        match self.undo_stack.pop() {
            Some(command) => {
                match undo(&command, engine) {
                    Ok(()) => {
                        self.redo_stack.push(command);
                        Ok(true)
                    },
                    Err(err) => {
                        self.undo_stack.push(command);
                        proof {
                            assert(self.undo_stack@ =~= old(self).undo_stack@);
                        }
                        Err(err)
                    },
                }
            },
            None => Ok(false),
        }
    }

    /// Re-apply the most recently undone command, moving it back to
    /// the undo stack.  Returns `Ok(false)` when there is nothing to
    /// redo.  A command that no longer applies is kept and nothing
    /// changes.
    pub fn redo(&mut self, engine: &mut Engine) -> (outcome: Result<bool, CommandError>)
        requires
            old(self).inv(),
            old(engine).wf(),
        ensures
            final(self).inv(),
            final(engine).wf(),
            final(self).max_history == old(self).max_history,
            outcome == Result::<bool, CommandError>::Ok(false) ==> old(self).redo_stack@.len() == 0 && *final(engine) == *old(engine) && final(self).undo_stack@ == old(self).undo_stack@ && final(self).redo_stack@ == old(self).redo_stack@,
            outcome == Result::<bool, CommandError>::Ok(true) ==> ({
                let last = old(self).redo_stack@.last();
                &&& old(self).redo_stack@.len() > 0
                &&& spec_applies(*old(engine), last)
                &&& spec_execute_rel(*old(engine), *final(engine), last)
                &&& final(self).redo_stack@ == old(self).redo_stack@.drop_last()
                &&& final(self).undo_stack@ == old(self).undo_stack@.push(last)
            }),
            outcome is Err ==> ({
                let last = old(self).redo_stack@.last();
                &&& old(self).redo_stack@.len() > 0
                &&& !spec_applies(*old(engine), last)
                &&& *final(engine) == *old(engine)
                &&& final(self).undo_stack@ == old(self).undo_stack@
                &&& final(self).redo_stack@ == old(self).redo_stack@
                &&& outcome == Result::<bool, CommandError>::Err(spec_error(*old(engine), last))
            }),
    {
        match self.redo_stack.pop() {
            Some(command) => {
                match execute(&command, engine) {
                    Ok(()) => {
                        self.undo_stack.push(command);
                        Ok(true)
                    },
                    Err(err) => {
                        self.redo_stack.push(command);
                        proof {
                            assert(self.redo_stack@ =~= old(self).redo_stack@);
                        }
                        Err(err)
                    },
                }
            },
            None => Ok(false),
        }
    }

    /// Whether there is a command to undo.
    pub fn can_undo(&self) -> (can: bool)
        ensures
            can == (self.undo_stack@.len() > 0),
    {
        self.undo_stack.len() > 0
    }

    /// Whether there is a command to redo.
    pub fn can_redo(&self) -> (can: bool)
        ensures
            can == (self.redo_stack@.len() > 0),
    {
        self.redo_stack.len() > 0
    }
}

} // verus!
