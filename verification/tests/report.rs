use super_analyzer::report::{
    assets, check_required, index_file, is_template_file, load_templates, page_file, page_outcome,
    rendered_outcome, report_file, report_folder, sources_folder, RenderedPage, Report,
    ReportError, TemplateEntry, TemplateFile,
};
use super_analyzer::tree::Page;

fn file(name: &str, source: &str) -> TemplateFile {
    TemplateFile { name: name.to_string(), source: source.to_string() }
}

fn default_templates() -> Vec<TemplateFile> {
    vec![
        file("report.hbs", "<h1>{{title}}</h1>"),
        file("src.hbs", "<ul>{{#each menu}}<li>{{name}}</li>{{/each}}</ul>"),
        file("code.hbs", "{{back_path}}|{{path}}|{{code}}"),
        file("style.css", "body {}"),
        file("README", "not a template"),
    ]
}

#[test]
fn it_new() {
    let _ = Report::from_path(&default_templates(), "test").unwrap();
}

#[test]
fn it_new_failure() {
    let files = vec![file("random path", "")];
    assert!(Report::from_path(&files, "test").is_err());
}

#[test]
fn it_load_templates() {
    let _ = load_templates(handlebars::Handlebars::new(), &default_templates()).unwrap();
}

#[test]
fn report_keeps_its_package() {
    let report = Report::from_path(&default_templates(), "test").unwrap();
    assert_eq!(report.package(), "test");
}

#[test]
fn missing_template_is_an_error() {
    let files = vec![file("report.hbs", "r"), file("src.hbs", "s")];
    assert_eq!(Report::from_path(&files, "test").err(), Some(ReportError::MissingTemplates));
    assert_eq!(Report::from_path(&Vec::new(), "test").err(), Some(ReportError::MissingTemplates));
}

#[test]
fn hidden_file_is_no_template() {
    let files = vec![file("report.hbs", "r"), file("src.hbs", "s"), file(".hbs", "c")];
    assert_eq!(Report::from_path(&files, "test").err(), Some(ReportError::MissingTemplates));
    assert!(!is_template_file(".hbs"));
    assert!(is_template_file("code.hbs"));
    assert!(is_template_file("a.b.hbs"));
    assert!(!is_template_file("code.hbs.bak"));
    assert!(!is_template_file("hbs"));
}

#[test]
fn broken_template_is_named() {
    let files = vec![file("report.hbs", "r"), file("code.hbs", "{{#if}}"), file("src.hbs", "s")];
    assert_eq!(
        Report::from_path(&files, "test").err(),
        Some(ReportError::InvalidTemplate { name: "code".to_string() })
    );
}

#[test]
fn loading_registers_under_the_stem() {
    let filled = load_templates(handlebars::Handlebars::new(), &default_templates()).unwrap();
    assert!(filled.has_template("report"));
    assert!(filled.has_template("src"));
    assert!(filled.has_template("code"));
    assert!(!filled.has_template("style"));
    assert!(!filled.has_template("code.hbs"));
}

#[test]
fn loading_keeps_what_the_registry_held() {
    let mut registry = handlebars::Handlebars::new();
    registry.register_template_string("code", "c").unwrap();
    let files = vec![file("report.hbs", "r"), file("src.hbs", "s")];
    let filled = load_templates(registry, &files).unwrap();
    assert!(filled.has_template("code"));
}

#[test]
fn required_templates_are_all_three() {
    assert_eq!(check_required(true, true, true), Ok(()));
    assert_eq!(check_required(false, true, true), Err(ReportError::MissingTemplates));
    assert_eq!(check_required(true, false, true), Err(ReportError::MissingTemplates));
    assert_eq!(check_required(true, true, false), Err(ReportError::MissingTemplates));
}

#[test]
fn page_is_rendered_with_its_three_fields() {
    let report = Report::from_path(&default_templates(), "test").unwrap();
    let page = Page {
        relative_path: "a/b/File.java".to_string(),
        code: "class File {}".to_string(),
        back_path: "../../".to_string(),
    };
    let written = report.render_page(&page).unwrap();
    assert_eq!(written.output_path, "a/b/File.java.html");
    assert_eq!(written.html, "../../|a/b/File.java|class File {}");
}

#[test]
fn page_outcome_names_the_output() {
    let page = Page {
        relative_path: "Main.java".to_string(),
        code: String::new(),
        back_path: String::new(),
    };
    let written = page_outcome(&page, Ok("<html/>".to_string())).unwrap();
    assert_eq!(written.output_path, "Main.java.html");
    assert_eq!(written.html, "<html/>");
    let failed = handlebars::Handlebars::new().render("code", &0);
    assert_eq!(
        page_outcome(&page, failed).err(),
        Some(ReportError::Render { template: "code".to_string() })
    );
}

#[test]
fn index_is_rendered_from_the_menu() {
    let report = Report::from_path(&default_templates(), "test").unwrap();
    let menu = vec![
        super_analyzer::tree::MenuNode::FileEntry {
            name: "Main.java".to_string(),
            relative_path: "Main.java".to_string(),
            extension: "java".to_string(),
        },
        super_analyzer::tree::MenuNode::DirectoryEntry {
            name: "res".to_string(),
            children: vec![super_analyzer::tree::MenuNode::FileEntry {
                name: "main.xml".to_string(),
                relative_path: "res/main.xml".to_string(),
                extension: "xml".to_string(),
            }],
        },
    ];
    assert_eq!(
        report.render_index(&menu),
        Ok("<ul><li>Main.java</li><li>res</li></ul>".to_string())
    );
}

#[test]
fn report_is_rendered_from_the_results() {
    let report = Report::from_path(&default_templates(), "test").unwrap();
    let mut results = serde_json::Map::new();
    let _ = results.insert("title".to_string(), serde_json::Value::String("Findings".to_string()));
    assert_eq!(
        report.render_report(&serde_json::Value::Object(results)),
        Ok("<h1>Findings</h1>".to_string())
    );
}

#[test]
fn failing_template_is_named() {
    let mut registry = handlebars::Handlebars::new();
    registry.set_strict_mode(true);
    let report = Report::with_registry(registry, &default_templates(), "test").unwrap();
    assert_eq!(
        report.render_report(&serde_json::Value::Null),
        Err(ReportError::Render { template: "report".to_string() })
    );
    assert_eq!(
        rendered_outcome("src", Ok("text".to_string())),
        Ok("text".to_string())
    );
}

#[test]
fn assets_are_directories_and_files_that_are_no_templates() {
    let entry = |name: &str, is_directory: bool| TemplateEntry { name: name.to_string(), is_directory };
    let entries = vec![
        entry("report.hbs", false),
        entry("css", true),
        entry("style.css", false),
        entry("LICENSE", false),
        entry("partials.hbs", true),
        entry("src.hbs", false),
        entry(".hbs", false),
    ];
    assert_eq!(assets(&entries), vec!["css", "style.css", "LICENSE", "partials.hbs", ".hbs"]);
    assert!(assets(&Vec::new()).is_empty());
}

#[test]
fn output_layout() {
    let config = super_analyzer::pipeline::Config {
        dist_folder: "dist".to_string(),
        downloads_folder: "downloads".to_string(),
        apktool_file: "apktool.jar".to_string(),
        dex2jar_folder: "dex2jar".to_string(),
        jd_cmd_file: "jd-cmd.jar".to_string(),
        results_folder: "results".to_string(),
        template_path: "templates".to_string(),
        batch_scripts: false,
        force: false,
        verbose: false,
        quiet: false,
    };
    assert_eq!(report_folder(&config, "app"), "results/app");
    assert_eq!(report_file(&config, "app"), "results/app/index.html");
    assert_eq!(sources_folder(&config, "app"), "results/app/src");
    assert_eq!(index_file(&config, "app"), "results/app/src/index.html");
    let page = RenderedPage {
        output_path: "res/layout/main.xml.html".to_string(),
        html: String::new(),
    };
    assert_eq!(page_file(&config, "app", &page), "results/app/src/res/layout/main.xml.html");
}

#[test]
fn broken_template_fails_the_loading_even_if_no_report_needs_it() {
    let mut files = default_templates();
    files.push(file("extra.hbs", "{{#if"));
    assert_eq!(
        Report::from_path(&files, "test").err(),
        Some(ReportError::InvalidTemplate { name: "extra".to_string() })
    );
}

#[test]
fn first_broken_template_is_the_one_named() {
    let files = vec![
        file("report.hbs", "r"),
        file("one.hbs", "{{#if}}"),
        file("two.hbs", "{{/each}}"),
    ];
    assert_eq!(
        load_templates(handlebars::Handlebars::new(), &files).err(),
        Some(ReportError::InvalidTemplate { name: "one".to_string() })
    );
}

#[test]
fn well_formed_templates_with_the_three_names_load() {
    let files = vec![file("code.hbs", ""), file("src.hbs", "{{x}}"), file("report.hbs", "text")];
    assert!(Report::from_path(&files, "test").is_ok());
    let broken_asset = vec![
        file("code.hbs", ""),
        file("src.hbs", ""),
        file("report.hbs", ""),
        file("notes.txt", "{{#if"),
    ];
    assert!(Report::from_path(&broken_asset, "test").is_ok());
}
