use vstd::prelude::*;

pub mod autocomplete;
pub mod command_evaluation;
pub mod commandlist;
pub mod key_select_menu;
pub mod lineeditor;
pub mod path_completion;
pub mod pipr_config;
pub mod session;

verus! {

/// The startup parameters given on the command line.
pub struct CliArgs {
    pub default_content: Option<String>,
    pub output_file: Option<String>,
    pub input_file: Option<String>,
    pub unsafe_mode: bool,
    pub raw_mode: bool,
}

} // verus!
