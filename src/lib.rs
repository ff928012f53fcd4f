//! A small interactive shell: the line tokenizer, the built-in command set,
//! the reading of one input line into a command, the search of the command
//! directories and the messages the shell prints.

pub mod builtin;
pub mod command;
pub mod cursor;
pub mod laws;
pub mod search;
pub mod split;
pub mod text;

pub use builtin::BuiltIn;
pub use command::{
    cd_missing_line, goes_home, not_found_line, parse_exit_code, parse_line, type_report, Command,
    ParseError,
};
pub use cursor::{str_chunk, until_space, Cursor};
pub use search::{candidates, find_exe, join_path};
pub use split::{split_paths, split_whitespace};
pub use text::{chars_of, trim};
