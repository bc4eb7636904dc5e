//! The report generator: a registry of templates, filled from template
//! files, that renders the pages of the report.

use vstd::prelude::*;
use vstd::string::*;
use crate::json::{index_data, page_data};
use crate::paths::{
    child_path, extension, extension_of, file_stem, join_path, same_text, stem_of,
};
use crate::pipeline::{texts, Config};
use crate::tree::{MenuNode, Page};

verus! {

/// `handlebars::Handlebars`, a registry of compiled templates.
#[verifier::external_type_specification]
#[verifier::external_body]
pub struct ExRegistry<'reg>(handlebars::Handlebars<'reg>);

/// `handlebars::TemplateError`, why a template does not compile.
#[verifier::external_type_specification]
#[verifier::external_body]
pub struct ExTemplateError(handlebars::TemplateError);

/// `handlebars::RenderError`, why a template could not be rendered.
#[verifier::external_type_specification]
#[verifier::external_body]
pub struct ExRenderError(handlebars::RenderError);

/// The names under which a registry holds a template.
pub uninterp spec fn registered(registry: handlebars::Handlebars<'static>) -> Set<Seq<char>>;

/// Whether a text compiles as a template.
pub uninterp spec fn compiles(source: Seq<char>) -> bool;

/// `Handlebars::new`: a registry that holds no template.
#[verifier::external_body]
pub(crate) fn new_registry() -> (registry: handlebars::Handlebars<'static>)
    ensures
        registered(registry) == Set::<Seq<char>>::empty(),
{
    handlebars::Handlebars::new()
}

/// `Handlebars::register_template_string`: compiles `source`, which succeeds
/// or fails by the text alone, and, where that succeeds, holds it under
/// `name`; where it fails, the registry holds what it held.
#[verifier::external_body]
pub(crate) fn register_template(
    registry: &mut handlebars::Handlebars<'static>,
    name: &str,
    source: &str,
) -> (done: Result<(), handlebars::TemplateError>)
    ensures
        done.is_ok() == compiles(source@),
        done.is_ok() ==> registered(*final(registry)) == registered(*old(registry)).insert(name@),
        done.is_err() ==> registered(*final(registry)) == registered(*old(registry)),
{
    registry.register_template_string(name, source)
}

/// `Handlebars::has_template`: whether the registry holds a template under
/// `name`.
#[verifier::external_body]
pub(crate) fn has_template(registry: &handlebars::Handlebars<'static>, name: &str) -> (yes: bool)
    ensures
        yes == registered(*registry).contains(name@),
{
    registry.has_template(name)
}

/// `Handlebars::render`: the text that the template `template` makes of
/// `data`. Nothing is claimed of what comes back.
#[verifier::external_body]
pub(crate) fn render(
    registry: &handlebars::Handlebars<'static>,
    template: &str,
    data: &serde_json::Value,
) -> (out: Result<String, handlebars::RenderError>) {
    registry.render(template, data)
}

/// One file of the template directory: its name and what it holds.
#[derive(Clone, Debug)]
pub struct TemplateFile {
    pub name: String,
    pub source: String,
}

/// Why a report could not be made.
#[derive(Clone, Debug, PartialEq, Eq)]
pub enum ReportError {
    /// The template file with this stem does not compile.
    InvalidTemplate { name: String },
    /// One of the templates that every report needs is missing.
    MissingTemplates,
    /// The template of this name could not be rendered.
    Render { template: String },
}

/// Whether a file of the template directory is a template.
pub open spec fn is_template(name: Seq<char>) -> bool {
    extension_of(name) == Some("hbs"@)
}

/// The names of the templates among the first `n` files.
pub open spec fn template_names(files: Seq<TemplateFile>, n: nat) -> Set<Seq<char>>
    decreases n,
{
    if n == 0 || n > files.len() {
        Set::empty()
    } else {
        let before = template_names(files, (n - 1) as nat);
        if is_template(files[n - 1].name@) {
            before.insert(stem_of(files[n - 1].name@))
        } else {
            before
        }
    }
}

/// Whether the templates that every report needs are among `names`.
pub open spec fn has_required(names: Set<Seq<char>>) -> bool {
    names.contains("report"@) && names.contains("src"@) && names.contains("code"@)
}

/// Decides whether a registry can make reports, from whether it holds each
/// of the three templates that every report needs.
pub fn check_required(report: bool, src: bool, code: bool) -> (verdict: Result<(), ReportError>)
    ensures
        verdict.is_ok() == (report && src && code),
        verdict.is_err() ==> verdict == Err::<(), ReportError>(ReportError::MissingTemplates),
{
    if !report || !src || !code {
        Err(ReportError::MissingTemplates)
    } else {
        Ok(())
    }
}

/// Whether a file name is that of a template.
pub fn is_template_file(name: &str) -> (yes: bool)
    ensures
        yes == is_template(name@),
{
    match extension(name) {
        None => false,
        Some(ext) => same_text(ext.as_str(), "hbs"),
    }
}

/// Whether every template among the first `n` files compiles.
pub open spec fn all_compile(files: Seq<TemplateFile>, n: nat) -> bool {
    forall|i: int|
        0 <= i < n && i < files.len() && is_template((#[trigger] files[i]).name@) ==> compiles(
            files[i].source@,
        )
}

/// Whether the file at `i` is the first template that does not compile.
pub open spec fn first_broken(files: Seq<TemplateFile>, i: int) -> bool {
    &&& 0 <= i < files.len()
    &&& is_template(files[i].name@)
    &&& !compiles(files[i].source@)
    &&& all_compile(files, i as nat)
}

/// What loading `files` into a registry that holds `held` gives: the names
/// that the registry then holds, where every template compiles and the
/// templates that every report needs are there.
pub open spec fn loading(held: Set<Seq<char>>, files: Seq<TemplateFile>) -> Option<
    Set<Seq<char>>,
> {
    let names = held.union(template_names(files, files.len()));
    if all_compile(files, files.len()) && has_required(names) {
        Some(names)
    } else {
        None
    }
}

/// Whether `e` is the error that loading `files` into a registry that holds
/// `held` ends with: the first template that does not compile, by its stem,
/// or, where all compile, the lack of a template that every report needs.
pub open spec fn loading_fails_with(
    held: Set<Seq<char>>,
    files: Seq<TemplateFile>,
    e: ReportError,
) -> bool {
    match e {
        ReportError::InvalidTemplate { name } => exists|i: int| #[trigger]
            first_broken(files, i) && name@ == stem_of(files[i].name@),
        ReportError::MissingTemplates => all_compile(files, files.len()) && !has_required(
            held.union(template_names(files, files.len())),
        ),
        ReportError::Render { .. } => false,
    }
}

/// Registers every template among `files` under its stem, in their order,
/// and checks that the templates every report needs are there. The first
/// template that does not compile ends the loading with its name.
pub fn load_templates(registry: handlebars::Handlebars<'static>, files: &Vec<TemplateFile>) -> (out:
    Result<handlebars::Handlebars<'static>, ReportError>)
    ensures
        out matches Ok(filled) ==> loading(registered(registry), files@) == Some(
            registered(filled),
        ),
        out matches Err(e) ==> loading(registered(registry), files@).is_none()
            && loading_fails_with(registered(registry), files@, e),
{
    let mut registry = registry;
    let ghost start = registered(registry);
    let mut i: usize = 0;
    assert(registered(registry) =~= start.union(template_names(files@, 0)));
    while i < files.len()
        invariant
            i <= files.len(),
            registered(registry) == start.union(template_names(files@, i as nat)),
            all_compile(files@, i as nat),
        decreases files.len() - i,
    {
        let file = &files[i];
        if is_template_file(file.name.as_str()) {
            let name = file_stem(file.name.as_str());
            match register_template(&mut registry, name.as_str(), file.source.as_str()) {
                Err(_) => {
                    assert(first_broken(files@, i as int));
                    assert(!all_compile(files@, files@.len()));
                    return Err(ReportError::InvalidTemplate { name });
                },
                Ok(_) => {},
            }
        }
        assert(registered(registry) =~= start.union(template_names(files@, (i + 1) as nat)));
        i = i + 1;
    }
    let report = has_template(&registry, "report");
    let src = has_template(&registry, "src");
    let code = has_template(&registry, "code");
    match check_required(report, src, code) {
        Err(e) => Err(e),
        Ok(_) => Ok(registry),
    }
}

/// A page as it is written: where, relative to the root of the mirrored
/// sources, and what.
#[derive(Clone, Debug, PartialEq, Eq)]
pub struct RenderedPage {
    pub output_path: String,
    pub html: String,
}

/// Where the page of the source file at `relative_path` is written.
pub open spec fn page_output_path(relative_path: Seq<char>) -> Seq<char> {
    relative_path + ".html"@
}

/// Judges a rendering: the text, or the failure of the template.
pub fn rendered_outcome(template: &str, rendered: Result<String, handlebars::RenderError>) -> (out:
    Result<String, ReportError>)
    ensures
        rendered matches Ok(html) ==> out == Ok::<String, ReportError>(html),
        rendered.is_err() ==> (out matches Err(ReportError::Render { template: failed })
            && failed@ == template@),
{
    match rendered {
        Ok(html) => Ok(html),
        Err(_) => Err(ReportError::Render { template: String::from_str(template) }),
    }
}

/// Judges the rendering of a page: the page as it is written, or the failure
/// of the `code` template.
pub fn page_outcome(page: &Page, rendered: Result<String, handlebars::RenderError>) -> (out: Result<
    RenderedPage,
    ReportError,
>)
    ensures
        rendered matches Ok(html) ==> (out matches Ok(written) && written.html@ == html@
            && written.output_path@ == page_output_path(page.relative_path@)),
        rendered.is_err() ==> (out matches Err(ReportError::Render { template }) && template@
            == "code"@),
{
    match rendered_outcome("code", rendered) {
        Ok(html) => {
            let mut output_path = page.relative_path.clone();
            output_path.append(".html");
            Ok(RenderedPage { output_path, html })
        },
        Err(e) => Err(e),
    }
}

/// One entry of the template directory.
#[derive(Clone, Debug, PartialEq, Eq)]
pub struct TemplateEntry {
    pub name: String,
    pub is_directory: bool,
}

/// Whether an entry of the template directory is copied beside the report:
/// every directory is, and every file that is no template.
pub open spec fn is_asset(entry: TemplateEntry) -> bool {
    entry.is_directory || !is_template(entry.name@)
}

/// The names of the assets among the first `n` entries, in their order.
pub open spec fn assets_among(entries: Seq<TemplateEntry>, n: nat) -> Seq<Seq<char>>
    decreases n,
{
    if n == 0 || n > entries.len() {
        Seq::empty()
    } else if is_asset(entries[n - 1]) {
        assets_among(entries, (n - 1) as nat).push(entries[n - 1].name@)
    } else {
        assets_among(entries, (n - 1) as nat)
    }
}

/// The names of the entries of the template directory that are copied
/// beside the report, in their order.
pub fn assets(entries: &Vec<TemplateEntry>) -> (names: Vec<String>)
    ensures
        texts(names@) == assets_among(entries@, entries@.len()),
{
    let mut names: Vec<String> = Vec::new();
    let mut i: usize = 0;
    assert(texts(names@) =~= assets_among(entries@, 0));
    while i < entries.len()
        invariant
            i <= entries.len(),
            texts(names@) == assets_among(entries@, i as nat),
        decreases entries.len() - i,
    {
        let entry = &entries[i];
        if entry.is_directory || !is_template_file(entry.name.as_str()) {
            names.push(entry.name.clone());
        }
        assert(texts(names@) =~= assets_among(entries@, (i + 1) as nat));
        i = i + 1;
    }
    names
}

/// The directory that the report of a package is written to.
pub open spec fn report_folder_of(config: Config, package: Seq<char>) -> Seq<char> {
    child_path(config.results_folder@, package)
}

/// The directory that the report of a package is written to.
pub fn report_folder(config: &Config, package: &str) -> (path: String)
    ensures
        path@ == report_folder_of(*config, package@),
{
    join_path(config.results_folder.as_str(), package)
}

/// The file of the report itself.
pub fn report_file(config: &Config, package: &str) -> (path: String)
    ensures
        path@ == child_path(report_folder_of(*config, package@), "index.html"@),
{
    let folder = report_folder(config, package);
    join_path(folder.as_str(), "index.html")
}

/// The directory of the mirrored sources.
pub fn sources_folder(config: &Config, package: &str) -> (path: String)
    ensures
        path@ == child_path(report_folder_of(*config, package@), "src"@),
{
    let folder = report_folder(config, package);
    join_path(folder.as_str(), "src")
}

/// The index of the mirrored sources.
pub fn index_file(config: &Config, package: &str) -> (path: String)
    ensures
        path@ == child_path(
            child_path(report_folder_of(*config, package@), "src"@),
            "index.html"@,
        ),
{
    let folder = sources_folder(config, package);
    join_path(folder.as_str(), "index.html")
}

/// The file that a rendered page is written to.
pub fn page_file(config: &Config, package: &str, page: &RenderedPage) -> (path: String)
    ensures
        path@ == child_path(
            child_path(report_folder_of(*config, package@), "src"@),
            page.output_path@,
        ),
{
    let folder = sources_folder(config, package);
    join_path(folder.as_str(), page.output_path.as_str())
}

/// The report generator of one package.
pub struct Report {
    handler: handlebars::Handlebars<'static>,
    package: String,
}

impl Report {
    /// The names of the templates that the generator holds.
    pub closed spec fn templates(&self) -> Set<Seq<char>> {
        registered(self.handler)
    }

    /// The name of the package that the generator reports on.
    pub closed spec fn package_name(&self) -> Seq<char> {
        self.package@
    }

    /// A generator for `package` over the templates among `files`, the files
    /// of the template directory. It is made where every template compiles
    /// and the templates that every report needs are among them.
    pub fn from_path(files: &Vec<TemplateFile>, package: &str) -> (out: Result<Report, ReportError>)
        ensures
            out matches Ok(report) ==> report.package_name() == package@ && loading(
                Set::empty(),
                files@,
            ) == Some(report.templates()),
            out matches Err(e) ==> loading(Set::empty(), files@).is_none() && loading_fails_with(
                Set::empty(),
                files@,
                e,
            ),
    {
        Report::with_registry(new_registry(), files, package)
    }

    /// A generator for `package` over `registry` and the templates among
    /// `files`. The registry brings what the templates call.
    pub fn with_registry(
        registry: handlebars::Handlebars<'static>,
        files: &Vec<TemplateFile>,
        package: &str,
    ) -> (out: Result<Report, ReportError>)
        ensures
            out matches Ok(report) ==> report.package_name() == package@ && loading(
                registered(registry),
                files@,
            ) == Some(report.templates()),
            out matches Err(e) ==> loading(registered(registry), files@).is_none()
                && loading_fails_with(registered(registry), files@, e),
    {
        match load_templates(registry, files) {
            Err(e) => Err(e),
            Ok(handler) => Ok(Report { handler, package: String::from_str(package) }),
        }
    }

    /// Renders the page of one source file with the `code` template, which
    /// is given the file's relative path, its text and its back path.
    pub fn render_page(&self, page: &Page) -> (out: Result<RenderedPage, ReportError>)
        ensures
            out matches Ok(written) ==> written.output_path@ == page_output_path(
                page.relative_path@,
            ),
            out matches Err(e) ==> (e matches ReportError::Render { template } && template@
                == "code"@),
    {
        let data = page_data(page);
        page_outcome(page, render(&self.handler, "code", &data))
    }

    /// Renders the index of the mirrored sources with the `src` template,
    /// which is given the menu.
    pub fn render_index(&self, menu: &Vec<MenuNode>) -> (out: Result<String, ReportError>)
        ensures
            out matches Err(e) ==> (e matches ReportError::Render { template } && template@
                == "src"@),
    {
        let data = index_data(menu);
        rendered_outcome("src", render(&self.handler, "src", &data))
    }

    /// Renders the report itself with the `report` template, which is given
    /// the results of the analysis.
    pub fn render_report(&self, results: &serde_json::Value) -> (out: Result<String, ReportError>)
        ensures
            out matches Err(e) ==> (e matches ReportError::Render { template } && template@
                == "report"@),
    {
        rendered_outcome("report", render(&self.handler, "report", results))
    }

    /// The package that the generator reports on.
    pub fn package(&self) -> (name: &str)
        ensures
            name@ == self.package_name(),
    {
        self.package.as_str()
    }
}

} // verus!
