use super_analyzer::pipeline::{
    after_stage, narration, archive_file, check_tool, decompile, decompress, dex_to_jar, extract_dex, marker, next_stage,
    plan_stage, record_extraction, workspace, Benchmark, Config, Invocation, PipelineError, Stage,
    StagePlan, ToolOutcome,
};

fn config(force: bool) -> Config {
    Config {
        dist_folder: "dist".to_string(),
        downloads_folder: "downloads".to_string(),
        apktool_file: "vendor/apktool.jar".to_string(),
        dex2jar_folder: "vendor/dex2jar".to_string(),
        jd_cmd_file: "vendor/jd-cmd.jar".to_string(),
        results_folder: "results".to_string(),
        template_path: "templates/default".to_string(),
        batch_scripts: false,
        force,
        verbose: false,
        quiet: false,
    }
}

fn strings(items: &[&str]) -> Vec<String> {
    items.iter().map(|s| s.to_string()).collect()
}

#[test]
fn workspace_layout() {
    let c = config(false);
    assert_eq!(workspace(&c, "com.example"), "dist/com.example");
    assert_eq!(archive_file(&c, "com.example"), "downloads/com.example.apk");
    assert_eq!(marker(&c, "com.example", Stage::Decompress), "dist/com.example");
    assert_eq!(
        marker(&c, "com.example", Stage::ExtractBytecode),
        "dist/com.example/classes.jar"
    );
    assert_eq!(marker(&c, "com.example", Stage::Decompile), "dist/com.example/classes");
}

#[test]
fn stages_follow_in_order() {
    assert_eq!(next_stage(Stage::Decompress), Some(Stage::ExtractBytecode));
    assert_eq!(next_stage(Stage::ExtractBytecode), Some(Stage::Decompile));
    assert_eq!(next_stage(Stage::Decompile), None);
}

#[test]
fn decompress_calls_the_decoder() {
    let plan = decompress(&config(false), "app", false);
    assert_eq!(
        plan,
        StagePlan::Tool {
            clean: false,
            tool: Invocation {
                program: "java".to_string(),
                args: strings(&[
                    "-jar",
                    "vendor/apktool.jar",
                    "d",
                    "-s",
                    "-o",
                    "dist/app",
                    "-f",
                    "downloads/app.apk",
                ]),
            },
        }
    );
}

#[test]
fn forced_decompress_cleans_an_existing_workspace() {
    match decompress(&config(true), "app", true) {
        StagePlan::Tool { clean, .. } => assert!(clean),
        other => panic!("unexpected plan {:?}", other),
    }
    match decompress(&config(true), "app", false) {
        StagePlan::Tool { clean, .. } => assert!(!clean),
        other => panic!("unexpected plan {:?}", other),
    }
}

#[test]
fn extraction_names_the_entry_and_the_converter() {
    let plan = extract_dex(&config(false), "app", false);
    assert_eq!(
        plan,
        StagePlan::Extract {
            archive: "downloads/app.apk".to_string(),
            entry: "classes.dex".to_string(),
            destination: "dist/app/classes.dex".to_string(),
            convert: Invocation {
                program: "vendor/dex2jar/d2j-dex2jar.sh".to_string(),
                args: strings(&["dist/app/classes.dex", "-o", "dist/app/classes.jar", "--force"]),
            },
        }
    );
}

#[test]
fn converter_script_follows_the_platform() {
    let mut c = config(false);
    c.batch_scripts = true;
    assert_eq!(dex_to_jar(&c, "app").program, "vendor/dex2jar/d2j-dex2jar.bat");
    c.batch_scripts = false;
    assert_eq!(dex_to_jar(&c, "app").program, "vendor/dex2jar/d2j-dex2jar.sh");
}

#[test]
fn decompile_calls_the_decompiler() {
    let plan = decompile(&config(false), "app", false);
    assert_eq!(
        plan,
        StagePlan::Tool {
            clean: false,
            tool: Invocation {
                program: "java".to_string(),
                args: strings(&[
                    "-jar",
                    "vendor/jd-cmd.jar",
                    "dist/app/classes.jar",
                    "-od",
                    "dist/app/classes",
                    "-f",
                ]),
            },
        }
    );
}

#[test]
fn forced_decompile_cleans_existing_sources() {
    match decompile(&config(true), "app", true) {
        StagePlan::Tool { clean, .. } => assert!(clean),
        other => panic!("unexpected plan {:?}", other),
    }
    match decompile(&config(true), "app", false) {
        StagePlan::Tool { clean, .. } => assert!(!clean),
        other => panic!("unexpected plan {:?}", other),
    }
}

#[test]
fn extraction_runs_until_the_converted_archive_exists() {
    let c = config(false);
    match extract_dex(&c, "app", false) {
        StagePlan::Extract { .. } => {}
        other => panic!("unexpected plan {:?}", other),
    }
    assert_eq!(extract_dex(&c, "app", true), StagePlan::Skip);
}

#[test]
fn every_tool_is_told_to_overwrite() {
    let c = config(false);
    match decompress(&c, "app", false) {
        StagePlan::Tool { tool, .. } => assert!(tool.args.contains(&"-f".to_string())),
        other => panic!("unexpected plan {:?}", other),
    }
    assert!(dex_to_jar(&c, "app").args.contains(&"--force".to_string()));
    match decompile(&c, "app", false) {
        StagePlan::Tool { tool, .. } => assert!(tool.args.contains(&"-f".to_string())),
        other => panic!("unexpected plan {:?}", other),
    }
}

#[test]
fn second_run_calls_no_tool() {
    let c = config(false);
    for stage in [Stage::Decompress, Stage::ExtractBytecode, Stage::Decompile] {
        assert_eq!(plan_stage(&c, "app", stage, true), StagePlan::Skip);
    }
    assert_eq!(decompress(&c, "app", true), StagePlan::Skip);
    assert_eq!(extract_dex(&c, "app", true), StagePlan::Skip);
    assert_eq!(decompile(&c, "app", true), StagePlan::Skip);
}

#[test]
fn forced_run_calls_every_tool() {
    let c = config(true);
    for stage in [Stage::Decompress, Stage::ExtractBytecode, Stage::Decompile] {
        for exists in [false, true] {
            assert_ne!(plan_stage(&c, "app", stage, exists), StagePlan::Skip);
        }
    }
}

#[test]
fn plan_stage_agrees_with_the_stage_functions() {
    for force in [false, true] {
        let c = config(force);
        for exists in [false, true] {
            assert_eq!(plan_stage(&c, "p", Stage::Decompress, exists), decompress(&c, "p", exists));
            assert_eq!(
                plan_stage(&c, "p", Stage::ExtractBytecode, exists),
                extract_dex(&c, "p", exists)
            );
            assert_eq!(plan_stage(&c, "p", Stage::Decompile, exists), decompile(&c, "p", exists));
        }
    }
}

#[test]
fn only_exit_code_zero_is_success() {
    let fine = ToolOutcome::Exited { success: true, stderr: "warning".to_string() };
    assert_eq!(check_tool(fine), Ok(()));
    let failed = ToolOutcome::Exited { success: false, stderr: "boom".to_string() };
    assert_eq!(
        check_tool(failed),
        Err(PipelineError::ToolExecution { stderr: "boom".to_string() })
    );
    let absent = ToolOutcome::NotStarted { reason: "java: not found".to_string() };
    assert_eq!(
        check_tool(absent),
        Err(PipelineError::ToolLaunch { reason: "java: not found".to_string() })
    );
}

#[test]
fn extraction_is_timed_in_two_records() {
    let mut benchmarks = vec![Benchmark::new("Earlier", 1, 2)];
    record_extraction(&mut benchmarks, (3, 400), (5, 600));
    assert_eq!(
        benchmarks,
        vec![
            Benchmark { label: "Earlier".to_string(), seconds: 1, nanoseconds: 2 },
            Benchmark { label: "Dex extraction".to_string(), seconds: 3, nanoseconds: 400 },
            Benchmark {
                label: "Dex to Jar decompilation".to_string(),
                seconds: 5,
                nanoseconds: 600,
            },
        ]
    );
}

#[test]
fn failure_ends_the_run() {
    assert_eq!(after_stage(Stage::Decompress, Ok(())), Ok(Some(Stage::ExtractBytecode)));
    assert_eq!(after_stage(Stage::ExtractBytecode, Ok(())), Ok(Some(Stage::Decompile)));
    assert_eq!(after_stage(Stage::Decompile, Ok(())), Ok(None));
    let failed = PipelineError::ToolExecution { stderr: "boom".to_string() };
    assert_eq!(after_stage(Stage::Decompress, Err(failed.clone())), Err(failed));
}

#[test]
fn narration_follows_the_verbosity() {
    let mut c = config(false);
    assert_eq!(narration(&c, "long", "short"), Some("short".to_string()));
    c.quiet = true;
    assert_eq!(narration(&c, "long", "short"), None);
    c.verbose = true;
    assert_eq!(narration(&c, "long", "short"), Some("long".to_string()));
    c.quiet = false;
    assert_eq!(narration(&c, "long", "short"), Some("long".to_string()));
}
