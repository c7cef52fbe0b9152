//! The tools as they are described to the model: each with its name, what
//! it is for, and the parameters it takes.

use vstd::prelude::*;
use crate::invocation::{arg_text, Argument, ToolInvocation};
use crate::sandbox::stays_beneath;
use crate::text::texts;
use crate::tools::{registered, task_for, Tool};

verus! {

pub const SEARCH_ONLINE_HELP: &'static str =
    "Search the web for a query and return a synthesized answer. Use for factual lookups, current events, or research. Defaults to concise summaries for speed.";

pub const QUERY_HELP: &'static str = "The search query";

pub const INCLUDE_RESULTS_HELP: &'static str =
    "Whether to include a list of search results (default: false). Set to true only if you need to review sources directly, e.g., for verification or multiple options.";

pub const ANSWER_MODE_HELP: &'static str =
    "Answer detail level. 'basic' (default): Quick summary in 3 sentences, ideal for straightforward queries. 'full': Comprehensive answer with all available details, best for in-depth research or ambiguous topics.";

pub const EXECUTE_COMMAND_HELP: &'static str =
    "Execute a system command. Use this for any shell task.";

pub const SEND_EMAIL_HELP: &'static str = "Sends an email to a fixed address using SMTP.";

pub const SUBJECT_HELP: &'static str = "Email subject line";

pub const BODY_HELP: &'static str = "Email message body";

pub const STOCK_QUERY_HELP: &'static str = "Query the Alpha Vantage API for stock/financial data";

pub const FUNCTION_HELP: &'static str = "The Alpha Vantage function (e.g., TIME_SERIES_DAILY)";

pub const SYMBOL_HELP: &'static str = "The stock symbol (e.g., IBM)";

pub const OUTPUTSIZE_HELP: &'static str =
    "The size of the output data. 'compact' returns the last 100 data points, 'full' returns all available data. Defaults to 'compact'.";

pub const LIMIT_HELP: &'static str =
    "Maximum number of most recent data points to return (default 5)";

pub const SCRAPE_URL_HELP: &'static str = "Scrapes the content of a single URL";

pub const URL_HELP: &'static str = "The URL to scrape";

pub const MODE_HELP: &'static str =
    "Mode: 'summarized' provides a concise summary (default), 'full' returns complete extracted text";

pub const FILE_EDITOR_HELP: &'static str =
    "Edit files in the sandbox with sub-commands: read, write, search, search_and_replace, apply_diff.";

pub const SUBCOMMAND_HELP: &'static str =
    "The sub-command to execute: read, write, search, search_and_replace, apply_diff";

pub const FILENAME_HELP: &'static str = "The name of the file in the sandbox to operate on";

pub const DATA_HELP: &'static str =
    "Content to write (for write), regex pattern (for search/search_and_replace), or diff content (for apply_diff)";

pub const REPLACEMENT_HELP: &'static str = "Replacement text for search_and_replace";

/// The type of a parameter.
#[derive(Clone, Copy, Debug, PartialEq, Eq, Structural)]
pub enum ParamKind {
    Text,
    Flag,
    Integer,
}

/// The value that a parameter has when the model does not give one.
pub enum Preset {
    Nothing,
    Text(String),
    Flag(bool),
    Integer(i64),
}

/// `Preset` as a mathematical value.
pub enum PresetView {
    Nothing,
    Text(Seq<char>),
    Flag(bool),
    Integer(int),
}

impl View for Preset {
    type V = PresetView;

    open spec fn view(&self) -> PresetView {
        match *self {
            Preset::Nothing => PresetView::Nothing,
            Preset::Text(text) => PresetView::Text(text@),
            Preset::Flag(flag) => PresetView::Flag(flag),
            Preset::Integer(number) => PresetView::Integer(number as int),
        }
    }
}

/// A parameter of a tool.
pub struct Parameter {
    pub name: String,
    pub kind: ParamKind,
    /// What the parameter means; empty if the name says it all.
    pub description: String,
    /// The values that the parameter may take; empty if it may take any.
    pub choices: Vec<String>,
    pub preset: Preset,
    /// Whether the model must give the parameter.
    pub required: bool,
}

/// `Parameter` as a mathematical value.
pub struct ParameterView {
    pub name: Seq<char>,
    pub kind: ParamKind,
    pub description: Seq<char>,
    pub choices: Seq<Seq<char>>,
    pub preset: PresetView,
    pub required: bool,
}

impl View for Parameter {
    type V = ParameterView;

    open spec fn view(&self) -> ParameterView {
        ParameterView {
            name: self.name@,
            kind: self.kind,
            description: self.description@,
            choices: texts(self.choices@),
            preset: self.preset@,
            required: self.required,
        }
    }
}

/// A tool as it is described to the model.
pub struct ToolSpec {
    pub tool: Tool,
    pub name: String,
    pub description: String,
    pub parameters: Vec<Parameter>,
}

/// The tools in the order in which they are described to the model.
pub open spec fn tool_order() -> Seq<Tool> {
    seq![
        Tool::SearchOnline,
        Tool::ExecuteCommand,
        Tool::SendEmail,
        Tool::StockQuery,
        Tool::ScrapeUrl,
        Tool::FileEditor,
    ]
}

/// What a tool is for.
pub open spec fn description_of(tool: Tool) -> Seq<char> {
    match tool {
        Tool::SearchOnline => SEARCH_ONLINE_HELP@,
        Tool::ExecuteCommand => EXECUTE_COMMAND_HELP@,
        Tool::SendEmail => SEND_EMAIL_HELP@,
        Tool::StockQuery => STOCK_QUERY_HELP@,
        Tool::ScrapeUrl => SCRAPE_URL_HELP@,
        Tool::FileEditor => FILE_EDITOR_HELP@,
    }
}

/// A parameter that holds any text and has no preset.
pub open spec fn text(name: Seq<char>, description: Seq<char>, required: bool) -> ParameterView {
    ParameterView {
        name,
        kind: ParamKind::Text,
        description,
        choices: Seq::empty(),
        preset: PresetView::Nothing,
        required,
    }
}

/// An optional parameter that holds one of two texts.
pub open spec fn either(
    name: Seq<char>,
    description: Seq<char>,
    first: Seq<char>,
    second: Seq<char>,
    preset: PresetView,
) -> ParameterView {
    ParameterView {
        name,
        kind: ParamKind::Text,
        description,
        choices: seq![first, second],
        preset,
        required: false,
    }
}

/// The parameters of a tool.
pub open spec fn signature(tool: Tool) -> Seq<ParameterView> {
    match tool {
        Tool::SearchOnline => seq![
            text("query"@, QUERY_HELP@, true),
            ParameterView {
                name: "include_results"@,
                kind: ParamKind::Flag,
                description: INCLUDE_RESULTS_HELP@,
                choices: Seq::empty(),
                preset: PresetView::Flag(false),
                required: false,
            },
            either(
                "answer_mode"@,
                ANSWER_MODE_HELP@,
                "basic"@,
                "full"@,
                PresetView::Text("basic"@),
            ),
        ],
        Tool::ExecuteCommand => seq![text("command"@, ""@, true)],
        Tool::SendEmail => seq![
            text("subject"@, SUBJECT_HELP@, true),
            text("body"@, BODY_HELP@, true),
        ],
        Tool::StockQuery => seq![
            text("function"@, FUNCTION_HELP@, true),
            text("symbol"@, SYMBOL_HELP@, true),
            either("outputsize"@, OUTPUTSIZE_HELP@, "compact"@, "full"@, PresetView::Nothing),
            ParameterView {
                name: "limit"@,
                kind: ParamKind::Integer,
                description: LIMIT_HELP@,
                choices: Seq::empty(),
                preset: PresetView::Integer(5),
                required: false,
            },
        ],
        Tool::ScrapeUrl => seq![
            text("url"@, URL_HELP@, true),
            either(
                "mode"@,
                MODE_HELP@,
                "summarized"@,
                "full"@,
                PresetView::Text("summarized"@),
            ),
        ],
        Tool::FileEditor => seq![
            ParameterView {
                name: "subcommand"@,
                kind: ParamKind::Text,
                description: SUBCOMMAND_HELP@,
                choices: seq![
                    "read"@,
                    "write"@,
                    "search"@,
                    "search_and_replace"@,
                    "apply_diff"@,
                ],
                preset: PresetView::Nothing,
                required: true,
            },
            text("filename"@, FILENAME_HELP@, true),
            text("data"@, DATA_HELP@, false),
            text("replacement"@, REPLACEMENT_HELP@, false),
        ],
    }
}

/// The views of a sequence of parameters.
pub open spec fn parameters_view(parameters: Seq<Parameter>) -> Seq<ParameterView> {
    Seq::new(parameters.len(), |i: int| parameters[i]@)
}

/// Whether `spec` describes its tool: under the tool's name, with what the
/// tool is for and with the tool's parameters.
pub open spec fn describes(spec: ToolSpec) -> bool {
    &&& spec.name@ == spec.tool.name()
    &&& spec.description@ == description_of(spec.tool)
    &&& parameters_view(spec.parameters@) == signature(spec.tool)
}

fn text_param(name: &str, description: &str, required: bool) -> (p: Parameter)
    ensures
        p@ == text(name@, description@, required),
{
    let p = Parameter {
        name: name.to_owned(),
        kind: ParamKind::Text,
        description: description.to_owned(),
        choices: Vec::new(),
        preset: Preset::Nothing,
        required,
    };
    assert(texts(p.choices@) =~= Seq::<Seq<char>>::empty());
    p
}

fn either_param(name: &str, description: &str, first: &str, second: &str, preset: Preset) -> (p:
    Parameter)
    ensures
        p@ == either(name@, description@, first@, second@, preset@),
{
    let mut choices: Vec<String> = Vec::new();
    choices.push(first.to_owned());
    choices.push(second.to_owned());
    assert(texts(choices@) =~= seq![first@, second@]);
    Parameter {
        name: name.to_owned(),
        kind: ParamKind::Text,
        description: description.to_owned(),
        choices,
        preset,
        required: false,
    }
}

/// Describes a tool.
pub fn create_tool(tool: Tool, description: &str, parameters: Vec<Parameter>) -> (spec: ToolSpec)
    ensures
        spec.tool == tool,
        spec.name@ == tool.name(),
        spec.description@ == description@,
        spec.parameters == parameters,
{
    ToolSpec {
        tool,
        name: tool.label().to_owned(),
        description: description.to_owned(),
        parameters,
    }
}

fn search_online_spec() -> (spec: ToolSpec)
    ensures
        spec.tool == Tool::SearchOnline,
        describes(spec),
{
    let mut p: Vec<Parameter> = Vec::new();
    p.push(text_param("query", QUERY_HELP, true));
    let include_results = Parameter {
        name: "include_results".to_owned(),
        kind: ParamKind::Flag,
        description: INCLUDE_RESULTS_HELP.to_owned(),
        choices: Vec::new(),
        preset: Preset::Flag(false),
        required: false,
    };
    assert(texts(include_results.choices@) =~= Seq::<Seq<char>>::empty());
    p.push(include_results);
    p.push(
        either_param(
            "answer_mode",
            ANSWER_MODE_HELP,
            "basic",
            "full",
            Preset::Text("basic".to_owned()),
        ),
    );
    assert(parameters_view(p@) =~= signature(Tool::SearchOnline));
    create_tool(Tool::SearchOnline, SEARCH_ONLINE_HELP, p)
}

fn execute_command_spec() -> (spec: ToolSpec)
    ensures
        spec.tool == Tool::ExecuteCommand,
        describes(spec),
{
    let mut p: Vec<Parameter> = Vec::new();
    p.push(text_param("command", "", true));
    assert(parameters_view(p@) =~= signature(Tool::ExecuteCommand));
    create_tool(Tool::ExecuteCommand, EXECUTE_COMMAND_HELP, p)
}

fn send_email_spec() -> (spec: ToolSpec)
    ensures
        spec.tool == Tool::SendEmail,
        describes(spec),
{
    let mut p: Vec<Parameter> = Vec::new();
    p.push(text_param("subject", SUBJECT_HELP, true));
    p.push(text_param("body", BODY_HELP, true));
    assert(parameters_view(p@) =~= signature(Tool::SendEmail));
    create_tool(Tool::SendEmail, SEND_EMAIL_HELP, p)
}

fn stock_query_spec() -> (spec: ToolSpec)
    ensures
        spec.tool == Tool::StockQuery,
        describes(spec),
{
    let mut p: Vec<Parameter> = Vec::new();
    p.push(text_param("function", FUNCTION_HELP, true));
    p.push(text_param("symbol", SYMBOL_HELP, true));
    p.push(either_param("outputsize", OUTPUTSIZE_HELP, "compact", "full", Preset::Nothing));
    let limit = Parameter {
        name: "limit".to_owned(),
        kind: ParamKind::Integer,
        description: LIMIT_HELP.to_owned(),
        choices: Vec::new(),
        preset: Preset::Integer(5),
        required: false,
    };
    assert(texts(limit.choices@) =~= Seq::<Seq<char>>::empty());
    p.push(limit);
    assert(parameters_view(p@) =~= signature(Tool::StockQuery));
    create_tool(Tool::StockQuery, STOCK_QUERY_HELP, p)
}

fn scrape_url_spec() -> (spec: ToolSpec)
    ensures
        spec.tool == Tool::ScrapeUrl,
        describes(spec),
{
    let mut p: Vec<Parameter> = Vec::new();
    p.push(text_param("url", URL_HELP, true));
    p.push(
        either_param(
            "mode",
            MODE_HELP,
            "summarized",
            "full",
            Preset::Text("summarized".to_owned()),
        ),
    );
    assert(parameters_view(p@) =~= signature(Tool::ScrapeUrl));
    create_tool(Tool::ScrapeUrl, SCRAPE_URL_HELP, p)
}

fn file_editor_spec() -> (spec: ToolSpec)
    ensures
        spec.tool == Tool::FileEditor,
        describes(spec),
{
    let mut subcommands: Vec<String> = Vec::new();
    subcommands.push("read".to_owned());
    subcommands.push("write".to_owned());
    subcommands.push("search".to_owned());
    subcommands.push("search_and_replace".to_owned());
    subcommands.push("apply_diff".to_owned());
    assert(texts(subcommands@) =~= seq![
        "read"@,
        "write"@,
        "search"@,
        "search_and_replace"@,
        "apply_diff"@,
    ]);
    let mut p: Vec<Parameter> = Vec::new();
    p.push(
        Parameter {
            name: "subcommand".to_owned(),
            kind: ParamKind::Text,
            description: SUBCOMMAND_HELP.to_owned(),
            choices: subcommands,
            preset: Preset::Nothing,
            required: true,
        },
    );
    p.push(text_param("filename", FILENAME_HELP, true));
    p.push(text_param("data", DATA_HELP, false));
    p.push(text_param("replacement", REPLACEMENT_HELP, false));
    assert(parameters_view(p@) =~= signature(Tool::FileEditor));
    create_tool(Tool::FileEditor, FILE_EDITOR_HELP, p)
}

/// The descriptions of all tools, for the model.
pub fn build_tools() -> (specs: Vec<ToolSpec>)
    ensures
        specs@.len() == tool_order().len(),
        forall|i: int|
            0 <= i < specs@.len() ==> (#[trigger] specs@[i]).tool == tool_order()[i] && describes(
                specs@[i],
            ),
{
    let mut specs: Vec<ToolSpec> = Vec::new();
    specs.push(search_online_spec());
    specs.push(execute_command_spec());
    specs.push(send_email_spec());
    specs.push(stock_query_spec());
    specs.push(scrape_url_spec());
    specs.push(file_editor_spec());
    specs
}

/// Whether `args` give every required parameter of `tool` as a string.
pub open spec fn gives_required(tool: Tool, args: Seq<Argument>) -> bool {
    forall|i: int|
        0 <= i < signature(tool).len() && (#[trigger] signature(tool)[i]).required ==> arg_text(
            args,
            signature(tool)[i].name,
        ) is Some
}

/// Whether the file that an invocation of the file editor names, if it
/// is one and names one, stays beneath the confinement root.
pub open spec fn names_no_file_outside(inv: ToolInvocation) -> bool {
    registered(inv.name@) == Some(Tool::FileEditor) ==> (arg_text(inv.args@, "filename"@)
        matches Some(filename) ==> stays_beneath(filename))
}

/// An invocation of a tool of the registry is carried out if it gives
/// every required parameter of the tool as a string and names no file
/// outside the confinement root, and is answered with a complaint if it
/// does not.
pub proof fn carried_out_iff_required_given(inv: ToolInvocation, unattended: bool)
    requires
        registered(inv.name@) is Some,
    ensures
        !(task_for(inv, unattended) is Reply) <==> (gives_required(
            registered(inv.name@)->0,
            inv.args@,
        ) && names_no_file_outside(inv)),
{
    let tool = registered(inv.name@)->0;
    let sig = signature(tool);
    match tool {
        Tool::SearchOnline => {
            assert(sig[0] == text("query"@, QUERY_HELP@, true));
        },
        Tool::ExecuteCommand => {
            assert(sig[0] == text("command"@, ""@, true));
        },
        Tool::SendEmail => {
            assert(sig[0] == text("subject"@, SUBJECT_HELP@, true));
            assert(sig[1] == text("body"@, BODY_HELP@, true));
        },
        Tool::StockQuery => {
            assert(sig[0] == text("function"@, FUNCTION_HELP@, true));
            assert(sig[1] == text("symbol"@, SYMBOL_HELP@, true));
        },
        Tool::ScrapeUrl => {
            assert(sig[0] == text("url"@, URL_HELP@, true));
        },
        Tool::FileEditor => {
            assert(sig[0].name == "subcommand"@ && sig[0].required);
            assert(sig[1] == text("filename"@, FILENAME_HELP@, true));
        },
    }
}

/// Every tool goes by a name of its own: looking a tool's name up gives the
/// tool.
pub proof fn each_tool_has_its_name(tool: Tool)
    ensures
        registered(tool.name()) == Some(tool),
{
    reveal_strlit("execute_command");
    reveal_strlit("file_editor");
    reveal_strlit("scrape_url");
    reveal_strlit("search_online");
    reveal_strlit("send_email");
    reveal_strlit("stock_query");
    assert("execute_command"@.len() == 15);
    assert("file_editor"@.len() == 11);
    assert("scrape_url"@.len() == 10);
    assert("search_online"@.len() == 13);
    assert("send_email"@.len() == 10);
    assert("stock_query"@.len() == 11);
    assert("scrape_url"@[1] != "send_email"@[1]);
    assert("file_editor"@[0] != "stock_query"@[0]);
}

} // verus!
