//! A CMake source formatter: lexer, parser, block structure, comment and
//! alignment passes, configuration loading and the command signature table.
pub mod token;
mod bytes;
pub mod ast;
pub mod parse;
pub mod parse_laws;
pub mod text;
pub mod config;
pub mod gen_file;
pub mod layout;
pub mod post_process;
pub mod signatures;
pub mod load;
pub mod key_laws;
pub mod end_args_laws;
pub mod settings;
pub mod loader;
pub mod cmd_options;
pub mod inline;
pub mod alignments;
pub mod format_text;
pub mod pipeline;
pub mod restore_law;
pub mod genex;
pub mod genex_tree;
pub mod arg_groups;
pub mod casing;
pub mod widths;
pub mod print_items;
pub mod emit_args;
pub mod conditions;
pub mod arg_list;
pub mod command_parts;
pub mod keyword_lists;
pub mod values_layout;
pub mod resolve;
pub mod cli;
