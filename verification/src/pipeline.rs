//! The decompilation pipeline: what each stage has to do, given where the
//! workspace stands, and what the outcome of a tool means.
//!
//! The stages run in a fixed order. A stage whose completion marker, its own
//! output, exists is skipped unless the run is forced. Every tool is told
//! where to write and to overwrite what is there. Only the extraction stage
//! and its conversion step are timed.

use vstd::prelude::*;
use vstd::string::*;
use crate::paths::{child_path, join_path};

verus! {

/// Where the tools and the workspaces are, and how the run behaves.
#[derive(Clone, Debug)]
pub struct Config {
    /// Root of the per-package workspaces.
    pub dist_folder: String,
    /// Directory that holds the application archives.
    pub downloads_folder: String,
    /// The resource decoder's archive.
    pub apktool_file: String,
    /// Directory of the bytecode converter's scripts.
    pub dex2jar_folder: String,
    /// The decompiler's archive.
    pub jd_cmd_file: String,
    /// Root of the per-package reports.
    pub results_folder: String,
    /// Directory of the templates and their assets.
    pub template_path: String,
    /// Whether the converter's batch script is used in place of its shell script.
    pub batch_scripts: bool,
    /// Whether completed stages run again.
    pub force: bool,
    pub verbose: bool,
    pub quiet: bool,
}

/// The stages of the pipeline, in their order.
#[derive(Clone, Copy, Debug, PartialEq, Eq)]
pub enum Stage {
    Decompress,
    ExtractBytecode,
    Decompile,
}

/// One call of an external tool.
#[derive(Clone, Debug, PartialEq, Eq)]
pub struct Invocation {
    pub program: String,
    pub args: Vec<String>,
}

/// The mathematical value of an invocation.
pub struct InvocationSpec {
    pub program: Seq<char>,
    pub args: Seq<Seq<char>>,
}

/// The values of a list of strings.
pub open spec fn texts(strings: Seq<String>) -> Seq<Seq<char>> {
    Seq::new(strings.len(), |i: int| strings[i]@)
}

impl View for Invocation {
    type V = InvocationSpec;

    open spec fn view(&self) -> InvocationSpec {
        InvocationSpec { program: self.program@, args: texts(self.args@) }
    }
}

/// What a stage has to do.
#[derive(Clone, Debug, PartialEq, Eq)]
pub enum StagePlan {
    /// The stage is complete: nothing runs.
    Skip,
    /// Run `tool`, after removing the workspace where `clean` is set.
    Tool { clean: bool, tool: Invocation },
    /// Copy the entry `entry` of the archive at `archive` to `destination`,
    /// then run `convert`.
    Extract { archive: String, entry: String, destination: String, convert: Invocation },
}

/// The mathematical value of a plan.
pub enum StagePlanSpec {
    Skip,
    Tool { clean: bool, tool: InvocationSpec },
    Extract {
        archive: Seq<char>,
        entry: Seq<char>,
        destination: Seq<char>,
        convert: InvocationSpec,
    },
}

impl View for StagePlan {
    type V = StagePlanSpec;

    open spec fn view(&self) -> StagePlanSpec {
        match self {
            StagePlan::Skip => StagePlanSpec::Skip,
            StagePlan::Tool { clean, tool } => StagePlanSpec::Tool { clean: *clean, tool: tool@ },
            StagePlan::Extract { archive, entry, destination, convert } => StagePlanSpec::Extract {
                archive: archive@,
                entry: entry@,
                destination: destination@,
                convert: convert@,
            },
        }
    }
}

/// The workspace of a package.
pub open spec fn workspace_of(config: Config, package: Seq<char>) -> Seq<char> {
    child_path(config.dist_folder@, package)
}

/// The archive of a package.
pub open spec fn archive_of(config: Config, package: Seq<char>) -> Seq<char> {
    child_path(config.downloads_folder@, package + ".apk"@)
}

/// The bytecode file in the workspace.
pub open spec fn bytecode_of(config: Config, package: Seq<char>) -> Seq<char> {
    child_path(workspace_of(config, package), "classes.dex"@)
}

/// The converted archive in the workspace.
pub open spec fn converted_of(config: Config, package: Seq<char>) -> Seq<char> {
    child_path(workspace_of(config, package), "classes.jar"@)
}

/// The decompiled sources in the workspace.
pub open spec fn sources_of(config: Config, package: Seq<char>) -> Seq<char> {
    child_path(workspace_of(config, package), "classes"@)
}

/// The path whose existence marks a stage as complete.
pub open spec fn marker_of(config: Config, package: Seq<char>, stage: Stage) -> Seq<char> {
    match stage {
        Stage::Decompress => workspace_of(config, package),
        Stage::ExtractBytecode => converted_of(config, package),
        Stage::Decompile => sources_of(config, package),
    }
}

/// Whether a stage runs: always when forced, else only while its marker is
/// missing.
pub open spec fn stage_runs(force: bool, marker_exists: bool) -> bool {
    force || !marker_exists
}

/// The call that decodes the archive's resources into the workspace.
pub open spec fn decompress_tool(config: Config, package: Seq<char>) -> InvocationSpec {
    InvocationSpec {
        program: "java"@,
        args: seq![
            "-jar"@,
            config.apktool_file@,
            "d"@,
            "-s"@,
            "-o"@,
            workspace_of(config, package),
            "-f"@,
            archive_of(config, package),
        ],
    }
}

/// The name of the converter's script.
pub open spec fn converter_script(batch: bool) -> Seq<char> {
    if batch {
        "d2j-dex2jar.bat"@
    } else {
        "d2j-dex2jar.sh"@
    }
}

/// The call that converts the bytecode file into an archive of classes.
pub open spec fn convert_tool(config: Config, package: Seq<char>) -> InvocationSpec {
    InvocationSpec {
        program: child_path(config.dex2jar_folder@, converter_script(config.batch_scripts)),
        args: seq![
            bytecode_of(config, package),
            "-o"@,
            converted_of(config, package),
            "--force"@,
        ],
    }
}

/// The call that decompiles the converted archive into sources.
pub open spec fn decompile_tool(config: Config, package: Seq<char>) -> InvocationSpec {
    InvocationSpec {
        program: "java"@,
        args: seq![
            "-jar"@,
            config.jd_cmd_file@,
            converted_of(config, package),
            "-od"@,
            sources_of(config, package),
            "-f"@,
        ],
    }
}

/// What each stage has to do, given whether its marker exists. A stage whose
/// marker is a directory removes it before a forced run.
pub open spec fn plan_of(config: Config, package: Seq<char>, stage: Stage, marker_exists: bool)
    -> StagePlanSpec {
    if !stage_runs(config.force, marker_exists) {
        StagePlanSpec::Skip
    } else {
        match stage {
            Stage::Decompress => StagePlanSpec::Tool {
                clean: marker_exists,
                tool: decompress_tool(config, package),
            },
            Stage::ExtractBytecode => StagePlanSpec::Extract {
                archive: archive_of(config, package),
                entry: "classes.dex"@,
                destination: bytecode_of(config, package),
                convert: convert_tool(config, package),
            },
            Stage::Decompile => StagePlanSpec::Tool {
                clean: marker_exists,
                tool: decompile_tool(config, package),
            },
        }
    }
}

/// The workspace of a package.
pub fn workspace(config: &Config, package: &str) -> (path: String)
    ensures
        path@ == workspace_of(*config, package@),
{
    join_path(config.dist_folder.as_str(), package)
}

/// The archive of a package.
pub fn archive_file(config: &Config, package: &str) -> (path: String)
    ensures
        path@ == archive_of(*config, package@),
{
    let mut file = String::from_str(package);
    file.append(".apk");
    join_path(config.downloads_folder.as_str(), file.as_str())
}

fn in_workspace(config: &Config, package: &str, name: &str) -> (path: String)
    ensures
        path@ == child_path(workspace_of(*config, package@), name@),
{
    let dir = workspace(config, package);
    join_path(dir.as_str(), name)
}

/// The path whose existence marks `stage` as complete.
pub fn marker(config: &Config, package: &str, stage: Stage) -> (path: String)
    ensures
        path@ == marker_of(*config, package@, stage),
{
    match stage {
        Stage::Decompress => workspace(config, package),
        Stage::ExtractBytecode => in_workspace(config, package, "classes.jar"),
        Stage::Decompile => in_workspace(config, package, "classes"),
    }
}

/// The stage that follows `stage`, if any.
pub fn next_stage(stage: Stage) -> (next: Option<Stage>)
    ensures
        next == match stage {
            Stage::Decompress => Some(Stage::ExtractBytecode),
            Stage::ExtractBytecode => Some(Stage::Decompile),
            Stage::Decompile => None::<Stage>,
        },
{
    match stage {
        Stage::Decompress => Some(Stage::ExtractBytecode),
        Stage::ExtractBytecode => Some(Stage::Decompile),
        Stage::Decompile => None,
    }
}

/// Plans the decoding of the archive's resources. `workspace_exists` says
/// whether the package's workspace is there.
pub fn decompress(config: &Config, package: &str, workspace_exists: bool) -> (plan: StagePlan)
    ensures
        plan@ == plan_of(*config, package@, Stage::Decompress, workspace_exists),
{
    if !workspace_exists || config.force {
        let mut args: Vec<String> = Vec::new();
        args.push(String::from_str("-jar"));
        args.push(config.apktool_file.clone());
        args.push(String::from_str("d"));
        args.push(String::from_str("-s"));
        args.push(String::from_str("-o"));
        args.push(workspace(config, package));
        args.push(String::from_str("-f"));
        args.push(archive_file(config, package));
        let tool = Invocation { program: String::from_str("java"), args };
        assert(tool@.args =~= decompress_tool(*config, package@).args);
        StagePlan::Tool { clean: workspace_exists, tool }
    } else {
        StagePlan::Skip
    }
}

/// The call that converts the bytecode file of the workspace.
pub fn dex_to_jar(config: &Config, package: &str) -> (tool: Invocation)
    ensures
        tool@ == convert_tool(*config, package@),
{
    let script = if config.batch_scripts {
        "d2j-dex2jar.bat"
    } else {
        "d2j-dex2jar.sh"
    };
    let mut args: Vec<String> = Vec::new();
    args.push(in_workspace(config, package, "classes.dex"));
    args.push(String::from_str("-o"));
    args.push(in_workspace(config, package, "classes.jar"));
    args.push(String::from_str("--force"));
    let tool = Invocation { program: join_path(config.dex2jar_folder.as_str(), script), args };
    assert(tool@.args =~= convert_tool(*config, package@).args);
    tool
}

/// Plans the extraction of the bytecode entry and its conversion.
/// `converted_exists` says whether the converted archive is in the workspace.
pub fn extract_dex(config: &Config, package: &str, converted_exists: bool) -> (plan: StagePlan)
    ensures
        plan@ == plan_of(*config, package@, Stage::ExtractBytecode, converted_exists),
{
    if config.force || !converted_exists {
        StagePlan::Extract {
            archive: archive_file(config, package),
            entry: String::from_str("classes.dex"),
            destination: in_workspace(config, package, "classes.dex"),
            convert: dex_to_jar(config, package),
        }
    } else {
        StagePlan::Skip
    }
}

/// Plans the decompilation of the converted archive. `sources_exist` says
/// whether the directory of decompiled sources is there; a forced run
/// removes it first.
pub fn decompile(config: &Config, package: &str, sources_exist: bool) -> (plan: StagePlan)
    ensures
        plan@ == plan_of(*config, package@, Stage::Decompile, sources_exist),
{
    if config.force || !sources_exist {
        let mut args: Vec<String> = Vec::new();
        args.push(String::from_str("-jar"));
        args.push(config.jd_cmd_file.clone());
        args.push(in_workspace(config, package, "classes.jar"));
        args.push(String::from_str("-od"));
        args.push(in_workspace(config, package, "classes"));
        args.push(String::from_str("-f"));
        let tool = Invocation { program: String::from_str("java"), args };
        assert(tool@.args =~= decompile_tool(*config, package@).args);
        StagePlan::Tool { clean: sources_exist, tool }
    } else {
        StagePlan::Skip
    }
}

/// Plans `stage`, given whether its marker exists.
pub fn plan_stage(config: &Config, package: &str, stage: Stage, marker_exists: bool) -> (plan:
    StagePlan)
    ensures
        plan@ == plan_of(*config, package@, stage, marker_exists),
{
    match stage {
        Stage::Decompress => decompress(config, package, marker_exists),
        Stage::ExtractBytecode => extract_dex(config, package, marker_exists),
        Stage::Decompile => decompile(config, package, marker_exists),
    }
}

/// A run that is not forced, over a workspace in which every marker exists,
/// calls no tool: every stage is skipped.
pub proof fn lemma_complete_workspace_is_left_alone(config: Config, package: Seq<char>, stage: Stage)
    requires
        !config.force,
    ensures
        plan_of(config, package, stage, true) == StagePlanSpec::Skip,
{
}

/// A forced run skips no stage, whatever markers exist: each stage calls its
/// tool.
pub proof fn lemma_forced_run_skips_nothing(
    config: Config,
    package: Seq<char>,
    stage: Stage,
    marker_exists: bool,
)
    requires
        config.force,
    ensures
        plan_of(config, package, stage, marker_exists) != StagePlanSpec::Skip,
        stage == Stage::Decompress ==> plan_of(config, package, stage, marker_exists)
            == (StagePlanSpec::Tool {
            clean: marker_exists,
            tool: decompress_tool(config, package),
        }),
        stage == Stage::ExtractBytecode ==> plan_of(config, package, stage, marker_exists)
            is Extract,
        stage == Stage::Decompile ==> plan_of(config, package, stage, marker_exists)
            == (StagePlanSpec::Tool {
            clean: marker_exists,
            tool: decompile_tool(config, package),
        }),
{
}

/// Whether the arguments of `tool` hold `flag` directly followed by `path`.
pub open spec fn names_output(tool: InvocationSpec, flag: Seq<char>, path: Seq<char>) -> bool {
    exists|i: int|
        0 <= i < tool.args.len() - 1 && #[trigger] tool.args[i] == flag && tool.args[i + 1]
            == path
}

/// Every tool is told where to write, by an output flag followed by the path
/// of the stage's output, and is told to overwrite what is there.
pub proof fn lemma_tools_name_their_output_and_overwrite(config: Config, package: Seq<char>)
    ensures
        names_output(decompress_tool(config, package), "-o"@, workspace_of(config, package)),
        decompress_tool(config, package).args.contains("-f"@),
        names_output(convert_tool(config, package), "-o"@, converted_of(config, package)),
        convert_tool(config, package).args.contains("--force"@),
        names_output(decompile_tool(config, package), "-od"@, sources_of(config, package)),
        decompile_tool(config, package).args.contains("-f"@),
{
    let a = decompress_tool(config, package).args;
    assert(a[4] == "-o"@ && a[5] == workspace_of(config, package));
    assert(a[6] == "-f"@);
    let b = convert_tool(config, package).args;
    assert(b[1] == "-o"@ && b[2] == converted_of(config, package));
    assert(b[3] == "--force"@);
    let c = decompile_tool(config, package).args;
    assert(c[3] == "-od"@ && c[4] == sources_of(config, package));
    assert(c[5] == "-f"@);
}

/// How a tool ended.
#[derive(Clone, Debug, PartialEq, Eq)]
pub enum ToolOutcome {
    /// The tool could not be started.
    NotStarted { reason: String },
    /// The tool ran; `success` says whether its exit code was zero.
    Exited { success: bool, stderr: String },
}

/// Why the pipeline stopped.
#[derive(Clone, Debug, PartialEq, Eq)]
pub enum PipelineError {
    /// A tool could not be started.
    ToolLaunch { reason: String },
    /// A tool ended with a code other than zero; `stderr` is what it wrote there.
    ToolExecution { stderr: String },
}

/// Judges the outcome of a tool: only an exit code of zero lets the run go on.
pub fn check_tool(outcome: ToolOutcome) -> (verdict: Result<(), PipelineError>)
    ensures
        verdict.is_ok() <==> outcome matches ToolOutcome::Exited { success: true, .. },
        outcome matches ToolOutcome::NotStarted { reason } ==> verdict == Err::<(), PipelineError>(
            PipelineError::ToolLaunch { reason },
        ),
        outcome matches ToolOutcome::Exited { success: false, stderr } ==> verdict == Err::<
            (),
            PipelineError,
        >(PipelineError::ToolExecution { stderr }),
{
    match outcome {
        ToolOutcome::NotStarted { reason } => Err(PipelineError::ToolLaunch { reason }),
        ToolOutcome::Exited { success, stderr } => {
            if success {
                Ok(())
            } else {
                Err(PipelineError::ToolExecution { stderr })
            }
        },
    }
}

/// What follows a stage: the next stage after a success, the end of the run
/// after the last one, and the failure itself after a failure, which ends the
/// run at once.
pub fn after_stage(stage: Stage, verdict: Result<(), PipelineError>) -> (step: Result<
    Option<Stage>,
    PipelineError,
>)
    ensures
        verdict.is_ok() ==> step == Ok::<Option<Stage>, PipelineError>(
            match stage {
                Stage::Decompress => Some(Stage::ExtractBytecode),
                Stage::ExtractBytecode => Some(Stage::Decompile),
                Stage::Decompile => None,
            },
        ),
        verdict matches Err(e) ==> step == Err::<Option<Stage>, PipelineError>(e),
{
    match verdict {
        Ok(_) => Ok(next_stage(stage)),
        Err(e) => Err(e),
    }
}

/// What is told of a step: the detailed line in a verbose run, the brief one
/// in an ordinary run, nothing in a quiet one. Verbose wins over quiet.
pub fn narration(config: &Config, detailed: &str, brief: &str) -> (line: Option<String>)
    ensures
        config.verbose ==> (line matches Some(text) && text@ == detailed@),
        !config.verbose && !config.quiet ==> (line matches Some(text) && text@ == brief@),
        !config.verbose && config.quiet ==> line.is_none(),
{
    if config.verbose {
        Some(String::from_str(detailed))
    } else if !config.quiet {
        Some(String::from_str(brief))
    } else {
        None
    }
}

/// The time one stage took.
#[derive(Clone, Debug, PartialEq, Eq)]
pub struct Benchmark {
    pub label: String,
    pub seconds: u64,
    pub nanoseconds: u32,
}

/// The mathematical value of a benchmark.
pub struct BenchmarkSpec {
    pub label: Seq<char>,
    pub seconds: u64,
    pub nanoseconds: u32,
}

impl View for Benchmark {
    type V = BenchmarkSpec;

    open spec fn view(&self) -> BenchmarkSpec {
        BenchmarkSpec {
            label: self.label@,
            seconds: self.seconds,
            nanoseconds: self.nanoseconds,
        }
    }
}

/// The values of a list of benchmarks.
pub open spec fn benchmarks_view(list: Seq<Benchmark>) -> Seq<BenchmarkSpec> {
    Seq::new(list.len(), |i: int| list[i]@)
}

impl Benchmark {
    /// A record of the time that the stage `label` took.
    pub fn new(label: &str, seconds: u64, nanoseconds: u32) -> (b: Benchmark)
        ensures
            b@ == (BenchmarkSpec { label: label@, seconds, nanoseconds }),
    {
        Benchmark { label: String::from_str(label), seconds, nanoseconds }
    }
}

/// Appends the two records of the extraction stage: the extraction itself,
/// then the conversion.
pub fn record_extraction(
    benchmarks: &mut Vec<Benchmark>,
    extraction: (u64, u32),
    conversion: (u64, u32),
)
    ensures
        benchmarks_view(final(benchmarks)@) == benchmarks_view(old(benchmarks)@) + seq![
            BenchmarkSpec {
                label: "Dex extraction"@,
                seconds: extraction.0,
                nanoseconds: extraction.1,
            },
            BenchmarkSpec {
                label: "Dex to Jar decompilation"@,
                seconds: conversion.0,
                nanoseconds: conversion.1,
            },
        ],
{
    benchmarks.push(Benchmark::new("Dex extraction", extraction.0, extraction.1));
    benchmarks.push(Benchmark::new("Dex to Jar decompilation", conversion.0, conversion.1));
    assert(benchmarks_view(benchmarks@) =~= benchmarks_view(old(benchmarks)@) + seq![
        BenchmarkSpec {
            label: "Dex extraction"@,
            seconds: extraction.0,
            nanoseconds: extraction.1,
        },
        BenchmarkSpec {
            label: "Dex to Jar decompilation"@,
            seconds: conversion.0,
            nanoseconds: conversion.1,
        },
    ]);
}

} // verus!
