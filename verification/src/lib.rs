//! An interpreter for a small line-oriented scripting language that drives an
//! interactive terminal wizard: selection prompts, conditional branching on
//! prior answers, message printing, directory changes, and shell commands.
//!
//! The crate holds the script logic itself — the tokenizer, the interpreter
//! state machine, the binding store, and conditional evaluation.  Interactive
//! prompting and the side-effecting actions (running a command, changing the
//! working directory) are collaborator gateways the interpreter only
//! describes: it reports which call must be made and consumes the reply.

pub mod text;

pub mod token;

pub mod machine;

pub mod run;
