//! Sudo-in-userspace kernel library: a declarative, sudoers-style policy
//! model, the decision procedure over (current identity, requested identity,
//! target program), request orchestration with a mandatory audit hook, and the
//! ordered identity-drop/exec sequence.

pub mod parse;
pub mod effects;
pub mod executable;
pub mod permission;
pub mod request;
pub mod resolve;
pub mod rules;
pub mod run;
pub mod sudoers;
