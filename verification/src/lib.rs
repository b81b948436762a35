//! A small stack-based, postfix scripting language that a host application
//! embeds to let its users query and change host-managed objects.

pub mod commands;
pub mod component;
pub mod dispatch;
pub mod environment;
pub mod host;
pub mod host_commands;
pub mod interpreter;
pub mod language;
pub mod lexer;
pub mod machine;
pub mod num;
pub mod output;
pub mod parser;
pub mod printer;
pub mod regex_command;
pub mod run;
pub mod text;
pub mod util;
pub mod variant;
