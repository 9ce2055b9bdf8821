//! Command-line surface of the generator tool.
//!
//! Plain data: which subcommand was chosen and with which values.  Parsing
//! the process arguments into these types, and dispatching on them, is the
//! binary's business.

use vstd::prelude::*;

verus! {

/// The generator tool's command line.
pub struct Cli {
    pub cmd: Cmd,
}

/// A generator subcommand.
pub enum Cmd {
    /// Generate data by rule.
    Rule {
        work_root: String,
        wpl_dir: Option<String>,
        conf_name: String,
        stat_print: bool,
        line_cnt: Option<usize>,
        gen_speed: Option<usize>,
        stat_sec: usize,
    },
    /// Generate data from sample files.
    Sample {
        work_root: String,
        wpl_dir: Option<String>,
        conf_name: String,
        print_stat: bool,
        line_cnt: Option<usize>,
        gen_speed: Option<usize>,
        stat_sec: usize,
    },
    /// Configuration commands.
    Conf { sub: ConfCmd },
    /// Data management commands.
    Data { sub: DataCmd },
}

/// Configuration subcommands of the generator tool.
pub enum ConfCmd {
    /// Initialize the generator configuration.
    Init { work_root: String },
    /// Clean the generator configuration.
    Clean { work_root: String },
    /// Check the generator configuration.
    Check { work_root: String },
}

/// Data subcommands of the generator tool.
pub enum DataCmd {
    /// Clean generated output data according to the generator configuration.
    Clean { work_root: String, conf_name: String, local: bool },
    /// Reserved; not supported.
    Check { work_root: String },
}

/// Options of one sample-generation run.
#[derive(Debug, Clone, Copy)]
pub struct SampleRunOpts {
    /// Print statistics periodically.
    pub print_stat: bool,
    /// Total line count override.
    pub line_cnt: Option<usize>,
    /// Generation speed override.
    pub gen_speed: Option<usize>,
    /// Statistics interval in seconds.
    pub stat_sec: usize,
}

impl SampleRunOpts {
    /// Bundles the four run options.
    pub fn new(
        print_stat: bool,
        line_cnt: Option<usize>,
        gen_speed: Option<usize>,
        stat_sec: usize,
    ) -> (r: Self)
        ensures
            r.print_stat == print_stat,
            r.line_cnt == line_cnt,
            r.gen_speed == gen_speed,
            r.stat_sec == stat_sec,
    {
        SampleRunOpts { print_stat, line_cnt, gen_speed, stat_sec }
    }
}

} // verus!
