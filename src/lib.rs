//! Annotates the output of a recursive `make` run: directory announcements are
//! tracked, and compiler diagnostics that name a relative file are prefixed with
//! the directory that `make` was in when it printed them.

mod text;
mod grammar;
mod interpreter;

pub use grammar::{
    announced, digits_end, enter_verb, find_from, has_make_tag, is_diagnostic, is_digit,
    is_terminator, last_index_of, leave_verb, occurs_at, parent_dir, strip_terminators,
    trim_slashes,
};

pub use interpreter::{
    lemma_absolute_path_is_not_diagnostic, lemma_rerun_is_stable, lemma_strip_terminators, run,
    step, LineProcessor, ProcessError,
};
