//! Command-line surface of the project management tool.
//!
//! Plain data: which subcommand was chosen and with which values.  Parsing
//! the process arguments into these types, and dispatching on them, is the
//! binary's business.

use vstd::prelude::*;

verus! {

/// A project-management subcommand.
pub enum WProj {
    /// Rule tools: management and debugging of parsing rules.
    Rule(RuleCmd),
    /// Initialize a complete project skeleton.
    Init(ProjectInitArgs),
    /// Batch check project configuration and file integrity.
    Check(ProjectCheckArgs),
    /// Data management tools: cleanup, statistics, validation.
    Data(DataCmd),
    /// Model management tools: rules, sources, sinks, knowledge base.
    Model(ModelCmd),
}

/// The project tool's command line.
pub struct WProjCli {
    /// Quiet mode with reduced output.
    pub quiet: bool,
    pub cmd: WProj,
}

/// Knowledge-base subcommands.
pub enum KnowdbCmd {
    Init(KnowdbInitArgs),
    Check(KnowdbCheckArgs),
    Clean(KnowdbCleanArgs),
}

/// Model subcommands.
pub enum ModelCmd {
    Sources(SourcesCommonArgs),
    Sinks(SinksCommonArgs),
    Route(SinksRouteArgs),
    Knowdb(KnowdbCmd),
}

/// Arguments of knowledge-base initialization.
#[derive(Debug, Clone)]
pub struct KnowdbInitArgs {
    pub work_root: String,
    /// Generate complete templates, with sample data.
    pub full: bool,
}

/// Arguments of a knowledge-base check.
#[derive(Debug, Clone)]
pub struct KnowdbCheckArgs {
    pub work_root: String,
}

/// Arguments of a knowledge-base cleanup.
#[derive(Debug, Clone)]
pub struct KnowdbCleanArgs {
    pub work_root: String,
}

/// Rule subcommands.
pub enum RuleCmd {
    /// Execute offline parsing tests with rules.
    Parse(ParseArgs),
}

/// Project subcommands.
pub enum ProjectCmd {
    Init(ProjectInitArgs),
    Doctor,
    Check(ProjectCheckArgs),
}

/// Arguments of a batch project check.
#[derive(Debug, Clone)]
pub struct ProjectCheckArgs {
    pub work_root: String,
    /// What to check, as a comma-separated selection.
    pub what: String,
    /// Log to the console.
    pub console: bool,
    /// Stop at the first failure.
    pub fail_fast: bool,
    /// JSON output.
    pub json: bool,
    /// Only print failed items.
    pub only_fail: bool,
}

/// Arguments of project initialization.
#[derive(Debug, Clone)]
pub struct ProjectInitArgs {
    pub work_root: String,
    /// Initialization mode.
    pub mode: String,
}

/// Statistics subcommands.
#[derive(Debug, Clone)]
pub enum StatCmd {
    /// Sources and file sinks combined.
    File(StatSinkArgs),
    /// Source files only.
    SrcFile(StatSrcArgs),
    /// Sink files only.
    SinkFile(StatSinkArgs),
}

/// Validation subcommands.
pub enum ValidateCmd {
    /// Validate file sinks against expectations.
    SinkFile(ValidateSinkArgs),
}

/// Data subcommands.
pub enum DataCmd {
    Clean(DataArgs),
    Check(DataArgs),
    Stat(DataStatArgs),
    Validate(DataValidateArgs),
}

/// Source subcommands.
pub enum SourcesCmd {
    List(SourcesCommonArgs),
}

/// Common arguments of source listings.
#[derive(Debug, Clone)]
pub struct SourcesCommonArgs {
    pub work_root: String,
    pub json: bool,
}

/// Arguments of a source route listing.
#[derive(Debug)]
pub struct SourcesRouteArgs {
    pub common: CommonFiltArgs,
}

/// Common arguments of sink listings.
#[derive(Debug, Clone)]
pub struct SinksCommonArgs {
    pub work_root: String,
    pub json: bool,
}

/// Arguments of a sink route listing.
#[derive(Debug)]
pub struct SinksRouteArgs {
    pub common: CommonFiltArgs,
}

/// Common filters of statistics and validation runs.
#[derive(Debug, Clone)]
pub struct CommonFiltArgs {
    pub work_root: String,
    /// Group filters, repeatable.
    pub group_names: Vec<String>,
    /// Sink filters, repeatable.
    pub sink_names: Vec<String>,
    /// Keep only paths containing this fragment.
    pub path_like: Option<String>,
    /// JSON output.
    pub json: bool,
}

/// Arguments of data cleanup and checks.
#[derive(Debug, Clone)]
pub struct DataArgs {
    /// Local mode: only clean local files.
    pub local: bool,
    pub work_root: String,
}

/// Arguments of data statistics.
#[derive(Debug, Clone)]
pub struct DataStatArgs {
    pub common: CommonFiltArgs,
    pub command: Option<StatCmd>,
}

/// Arguments of data validation.
#[derive(Debug, Clone)]
pub struct DataValidateArgs {
    pub work_root: String,
    /// Explicit total input count; source statistics otherwise.
    pub input_cnt: Option<u64>,
}

/// Arguments of source-file statistics.
#[derive(Debug, Clone)]
pub struct StatSrcArgs {
    pub common: CommonFiltArgs,
}

/// Arguments of sink-file statistics.
#[derive(Debug, Clone)]
pub struct StatSinkArgs {
    pub common: CommonFiltArgs,
}

/// Arguments of sink-file validation.
#[derive(Debug, Clone)]
pub struct ValidateSinkArgs {
    pub common: CommonFiltArgs,
    /// Explicit total input count.
    pub input_cnt: Option<u64>,
    /// Runtime statistics JSON file.
    pub stats_file: Option<String>,
    /// Show details.
    pub verbose: bool,
}

/// Arguments of an environment check.
#[derive(Debug)]
pub struct ChkArgs {
    /// The check item.
    pub item: String,
    pub work_root: String,
}

/// Arguments of an offline parse run.
#[derive(Debug, Clone)]
pub struct ParseArgs {
    pub in_path: Option<String>,
    pub rule_file: Option<String>,
    pub json: bool,
    pub quiet: bool,
}

/// Arguments of a sample analysis run.
#[derive(Debug)]
pub struct AnalyseArgs {
    pub work_root: String,
    pub in_path: Option<String>,
    pub out_path: Option<String>,
    pub mode: String,
    pub rule: Option<String>,
    pub line_max: Option<usize>,
    pub rule_file: Option<String>,
    /// Check strength.
    pub check: usize,
    pub json: bool,
    pub knowledge_path: Option<String>,
}

} // verus!
