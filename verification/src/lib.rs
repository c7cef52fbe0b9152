//! Core of a terminal assistant that lets a language model act on the local
//! machine.
//!
//! Three parts carry the rest: the patch engine (`patch`), which applies a
//! unified diff to a text; the command runner (`command`, `session`), which
//! decides what is run and words how it went; and the tool loop
//! (`orchestrator`), which carries out what the model asks for, one
//! invocation after the other, and stops where the human refuses. Around them
//! stand the file editor (`file_edit`), which touches no file whose name
//! leaves the confinement root (`sandbox`), the transcript (`chat`), which
//! the loop keeps (`assistant`), the tools as the model sees them (`tools`,
//! `registry`, `invocation`) and the services behind some of them (`search`,
//! `scrape`, `email`, `alpha_vantage`).
//!
//! Every effect (starting a process, touching a file, asking the human,
//! talking to the model) is left to the caller. The functions here decide what
//! is to be done and what is to be reported, and say so in their contracts.
//! What holds of the patch engine and of the tool loop in general is proved
//! in `patch_laws` and `orchestrator_laws`.

pub mod text;
pub mod pattern;
pub mod patch;
pub mod patch_laws;
pub mod config;
pub mod utils;
pub mod sandbox;
pub mod invocation;
pub mod tools;
pub mod orchestrator;
pub mod orchestrator_laws;
pub mod command;
pub mod file_edit;
pub mod chat;
pub mod assistant;
pub mod registry;
pub mod shell;
pub mod session;
pub mod similarity;
pub mod search;
pub mod scrape;
pub mod email;
pub mod alpha_vantage;
pub mod input;
