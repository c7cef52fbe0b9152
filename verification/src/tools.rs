//! The tools that the model may call: their names, what each needs, and the
//! text in which a result goes back to the model.

use vstd::prelude::*;
use crate::invocation::{arg_flag, arg_text, get_opt_bool, get_opt_str, get_text, Argument, ToolInvocation};
use crate::pattern::{compile, regex_compile_error, regex_replace_all, replace_all};
use crate::sandbox::{beneath_root, outside_message, outside_text, stays_beneath};
use crate::text::{
    option_text, push_text, text_eq, to_unix_line_ends, trim, trim_end, trimmed, trimmed_end,
    unix_line_ends,
};

verus! {

/// The pattern for a run of three or more line feeds.
pub const BLANK_LINES: &'static str = r"\n{3,}";

/// `s` with every run of three or more line feeds cut down to two, so that at
/// most one blank line stands between two lines.
pub open spec fn collapsed(s: Seq<char>) -> Seq<char> {
    match regex_compile_error(BLANK_LINES@) {
        None => regex_replace_all(BLANK_LINES@, s, "\n\n"@),
        Some(_) => s,
    }
}

/// The normal form of a text: no white space around it, Unix line ends, at
/// most one blank line in a row.
pub open spec fn normalized(s: Seq<char>) -> Seq<char> {
    trim_end(collapsed(unix_line_ends(trim(s))))
}

/// Brings a text into its normal form.
pub fn normalize_output(text: &str) -> (r: String)
    ensures
        r@ == normalized(text@),
{
    let inner = trimmed(text);
    let unix = to_unix_line_ends(inner.as_str());
    let limited = match compile(BLANK_LINES) {
        Ok(blank_lines) => replace_all(&blank_lines, unix.as_str(), "\n\n"),
        Err(_) => unix,
    };
    trimmed_end(limited.as_str())
}

/// The text in which a tool reports what it did.
pub open spec fn result_text(name: Seq<char>, msg: Seq<char>) -> Seq<char> {
    normalized("[Tool result] "@ + name + ": "@ + msg)
}

/// The text in which a tool reports that it could not do what was asked.
pub open spec fn error_text(name: Seq<char>, err: Seq<char>) -> Seq<char> {
    normalized("[Tool error] "@ + name + ": "@ + err)
}

/// Words a tool's result for the model.
pub fn tool_result(name: &str, msg: &str) -> (r: String)
    ensures
        r@ == result_text(name@, msg@),
{
    let mut s = String::new();
    push_text(&mut s, "[Tool result] ");
    push_text(&mut s, name);
    push_text(&mut s, ": ");
    push_text(&mut s, msg);
    assert(s@ =~= "[Tool result] "@ + name@ + ": "@ + msg@);
    normalize_output(s.as_str())
}

/// Words a tool's failure for the model.
pub fn tool_error(name: &str, err: &str) -> (r: String)
    ensures
        r@ == error_text(name@, err@),
{
    let mut s = String::new();
    push_text(&mut s, "[Tool error] ");
    push_text(&mut s, name);
    push_text(&mut s, ": ");
    push_text(&mut s, err);
    assert(s@ =~= "[Tool error] "@ + name@ + ": "@ + err@);
    normalize_output(s.as_str())
}

/// The tools of the registry.
#[derive(Clone, Copy, Debug, PartialEq, Eq, Structural)]
pub enum Tool {
    ExecuteCommand,
    FileEditor,
    ScrapeUrl,
    SearchOnline,
    SendEmail,
    StockQuery,
}

impl Tool {
    /// The name under which the model calls the tool.
    pub open spec fn name(self) -> Seq<char> {
        match self {
            Tool::ExecuteCommand => "execute_command"@,
            Tool::FileEditor => "file_editor"@,
            Tool::ScrapeUrl => "scrape_url"@,
            Tool::SearchOnline => "search_online"@,
            Tool::SendEmail => "send_email"@,
            Tool::StockQuery => "stock_query"@,
        }
    }

    /// The name under which the model calls the tool.
    pub fn label(self) -> (s: &'static str)
        ensures
            s@ == self.name(),
    {
        match self {
            Tool::ExecuteCommand => "execute_command",
            Tool::FileEditor => "file_editor",
            Tool::ScrapeUrl => "scrape_url",
            Tool::SearchOnline => "search_online",
            Tool::SendEmail => "send_email",
            Tool::StockQuery => "stock_query",
        }
    }
}

/// The tool that goes by `name`, if the registry has one.
pub open spec fn registered(name: Seq<char>) -> Option<Tool> {
    if name == Tool::ExecuteCommand.name() {
        Some(Tool::ExecuteCommand)
    } else if name == Tool::FileEditor.name() {
        Some(Tool::FileEditor)
    } else if name == Tool::ScrapeUrl.name() {
        Some(Tool::ScrapeUrl)
    } else if name == Tool::SearchOnline.name() {
        Some(Tool::SearchOnline)
    } else if name == Tool::SendEmail.name() {
        Some(Tool::SendEmail)
    } else if name == Tool::StockQuery.name() {
        Some(Tool::StockQuery)
    } else {
        None
    }
}

/// Looks a tool up by its name.
pub fn lookup_tool(name: &str) -> (r: Option<Tool>)
    ensures
        r == registered(name@),
{
    if text_eq(name, "execute_command") {
        Some(Tool::ExecuteCommand)
    } else if text_eq(name, "file_editor") {
        Some(Tool::FileEditor)
    } else if text_eq(name, "scrape_url") {
        Some(Tool::ScrapeUrl)
    } else if text_eq(name, "search_online") {
        Some(Tool::SearchOnline)
    } else if text_eq(name, "send_email") {
        Some(Tool::SendEmail)
    } else if text_eq(name, "stock_query") {
        Some(Tool::StockQuery)
    } else {
        None
    }
}

/// Whether a sub-command of the file editor changes the file.
pub open spec fn destructive(subcommand: Seq<char>) -> bool {
    subcommand != "read"@ && subcommand != "search"@
}

/// What has to happen for one tool invocation.
pub enum Task {
    /// Nothing: the invocation is answered with this text.
    Reply(String),
    /// Run a command line.
    Command { command: String },
    /// Search the web.
    Search { query: String, include_results: bool, answer_mode: String },
    /// Fetch a page.
    Scrape { url: String, mode: String },
    /// Send a mail.
    Email { subject: String, body: String },
    /// Query stock data.
    Stock { function: String, symbol: String, outputsize: Option<String> },
    /// Work on a file. `skip_confirmation` says that the human need not be
    /// asked.
    Edit {
        subcommand: String,
        filename: String,
        data: Option<String>,
        replacement: Option<String>,
        skip_confirmation: bool,
    },
}

/// `Task` as a mathematical value.
pub enum TaskView {
    Reply(Seq<char>),
    Command { command: Seq<char> },
    Search { query: Seq<char>, include_results: bool, answer_mode: Seq<char> },
    Scrape { url: Seq<char>, mode: Seq<char> },
    Email { subject: Seq<char>, body: Seq<char> },
    Stock { function: Seq<char>, symbol: Seq<char>, outputsize: Option<Seq<char>> },
    Edit {
        subcommand: Seq<char>,
        filename: Seq<char>,
        data: Option<Seq<char>>,
        replacement: Option<Seq<char>>,
        skip_confirmation: bool,
    },
}

impl View for Task {
    type V = TaskView;

    open spec fn view(&self) -> TaskView {
        match *self {
            Task::Reply(text) => TaskView::Reply(text@),
            Task::Command { command } => TaskView::Command { command: command@ },
            Task::Search { query, include_results, answer_mode } => TaskView::Search {
                query: query@,
                include_results,
                answer_mode: answer_mode@,
            },
            Task::Scrape { url, mode } => TaskView::Scrape { url: url@, mode: mode@ },
            Task::Email { subject, body } => TaskView::Email { subject: subject@, body: body@ },
            Task::Stock { function, symbol, outputsize } => TaskView::Stock {
                function: function@,
                symbol: symbol@,
                outputsize: option_text(outputsize),
            },
            Task::Edit { subcommand, filename, data, replacement, skip_confirmation } => {
                TaskView::Edit {
                    subcommand: subcommand@,
                    filename: filename@,
                    data: option_text(data),
                    replacement: option_text(replacement),
                    skip_confirmation,
                }
            },
        }
    }
}

/// The value of an optional string, or a default.
pub open spec fn text_or(o: Option<Seq<char>>, default: Seq<char>) -> Seq<char> {
    match o {
        Some(s) => s,
        None => default,
    }
}

/// What a command invocation needs: the command line, or a complaint that
/// it is missing.
pub open spec fn command_task(args: Seq<Argument>) -> TaskView {
    match arg_text(args, "command"@) {
        Some(command) => TaskView::Command { command },
        None => TaskView::Reply(
            normalized("[Tool error] execute_command: Missing 'command' parameter"@),
        ),
    }
}

/// What a search invocation needs. Results are left out and the answer is
/// basic unless the arguments say otherwise.
pub open spec fn search_task(args: Seq<Argument>) -> TaskView {
    match arg_text(args, "query"@) {
        Some(query) => TaskView::Search {
            query,
            include_results: match arg_flag(args, "include_results"@) {
                Some(b) => b,
                None => false,
            },
            answer_mode: text_or(arg_text(args, "answer_mode"@), "basic"@),
        },
        None => TaskView::Reply(
            normalized("[Tool error] search_online: Missing 'query' parameter"@),
        ),
    }
}

/// What a mail invocation needs.
pub open spec fn email_task(args: Seq<Argument>) -> TaskView {
    match (arg_text(args, "subject"@), arg_text(args, "body"@)) {
        (Some(subject), Some(body)) => TaskView::Email { subject, body },
        _ => TaskView::Reply(normalized("[Tool error] send_email: Missing required parameters"@)),
    }
}

/// What a scrape invocation needs. The page is summarized unless the
/// arguments say otherwise.
pub open spec fn scrape_task(args: Seq<Argument>) -> TaskView {
    match arg_text(args, "url"@) {
        Some(url) => TaskView::Scrape { url, mode: text_or(arg_text(args, "mode"@), "summarized"@) },
        None => TaskView::Reply(error_text("scrape_url"@, "Missing 'url' parameter"@)),
    }
}

/// What a stock query needs.
pub open spec fn stock_task(args: Seq<Argument>) -> TaskView {
    match (arg_text(args, "function"@), arg_text(args, "symbol"@)) {
        (Some(function), Some(symbol)) => TaskView::Stock {
            function,
            symbol,
            outputsize: arg_text(args, "outputsize"@),
        },
        _ => TaskView::Reply(error_text("stock_query"@, "Missing required parameters"@)),
    }
}

/// What a file editor invocation needs. A file name that does not stay
/// beneath the confinement root is answered with an error, and no file is
/// touched. The human is asked before a file is changed, unless the
/// assistant runs unattended.
pub open spec fn edit_task(args: Seq<Argument>, unattended: bool) -> TaskView {
    match (arg_text(args, "subcommand"@), arg_text(args, "filename"@)) {
        (Some(subcommand), Some(filename)) => if stays_beneath(filename) {
            TaskView::Edit {
                subcommand,
                filename,
                data: arg_text(args, "data"@),
                replacement: arg_text(args, "replacement"@),
                skip_confirmation: !destructive(subcommand) || unattended,
            }
        } else {
            TaskView::Reply(error_text("file_editor"@, outside_text(filename)))
        },
        _ => TaskView::Reply(
            error_text(
                "file_editor"@,
                "Missing required parameters 'subcommand' or 'filename'"@,
            ),
        ),
    }
}

/// What has to happen for a tool invocation. A name that the registry does
/// not have is answered with an error text and nothing else happens.
pub open spec fn task_for(inv: ToolInvocation, unattended: bool) -> TaskView {
    match registered(inv.name@) {
        Some(Tool::ExecuteCommand) => command_task(inv.args@),
        Some(Tool::SearchOnline) => search_task(inv.args@),
        Some(Tool::SendEmail) => email_task(inv.args@),
        Some(Tool::ScrapeUrl) => scrape_task(inv.args@),
        Some(Tool::StockQuery) => stock_task(inv.args@),
        Some(Tool::FileEditor) => edit_task(inv.args@, unattended),
        None => TaskView::Reply(error_text("unknown"@, "Unknown function: "@ + inv.name@)),
    }
}

/// Reads the arguments of a command invocation.
pub fn process_execute_command(args: &Vec<Argument>) -> (task: Task)
    ensures
        task@ == command_task(args@),
{
    match get_text(args, "command") {
        Some(command) => Task::Command { command },
        None => Task::Reply(
            normalize_output("[Tool error] execute_command: Missing 'command' parameter"),
        ),
    }
}

/// Reads the arguments of a search invocation.
pub fn process_search_online(args: &Vec<Argument>) -> (task: Task)
    ensures
        task@ == search_task(args@),
{
    match get_text(args, "query") {
        Some(query) => Task::Search {
            query,
            include_results: get_opt_bool(args, "include_results", false),
            answer_mode: get_opt_str(args, "answer_mode", "basic"),
        },
        None => Task::Reply(
            normalize_output("[Tool error] search_online: Missing 'query' parameter"),
        ),
    }
}

/// Reads the arguments of a mail invocation.
pub fn process_send_email(args: &Vec<Argument>) -> (task: Task)
    ensures
        task@ == email_task(args@),
{
    let subject = get_text(args, "subject");
    let body = get_text(args, "body");
    match (subject, body) {
        (Some(subject), Some(body)) => Task::Email { subject, body },
        _ => Task::Reply(normalize_output("[Tool error] send_email: Missing required parameters")),
    }
}

/// Reads the arguments of a scrape invocation.
pub fn process_scrape_url(args: &Vec<Argument>) -> (task: Task)
    ensures
        task@ == scrape_task(args@),
{
    match get_text(args, "url") {
        Some(url) => Task::Scrape { url, mode: get_opt_str(args, "mode", "summarized") },
        None => Task::Reply(tool_error("scrape_url", "Missing 'url' parameter")),
    }
}

/// Reads the arguments of a stock query.
pub fn process_stock_query(args: &Vec<Argument>) -> (task: Task)
    ensures
        task@ == stock_task(args@),
{
    let function = get_text(args, "function");
    let symbol = get_text(args, "symbol");
    match (function, symbol) {
        (Some(function), Some(symbol)) => Task::Stock {
            function,
            symbol,
            outputsize: get_text(args, "outputsize"),
        },
        _ => Task::Reply(tool_error("stock_query", "Missing required parameters")),
    }
}

/// Reads the arguments of a file editor invocation.
pub fn process_file_editor(args: &Vec<Argument>, unattended: bool) -> (task: Task)
    ensures
        task@ == edit_task(args@, unattended),
{
    let subcommand = get_text(args, "subcommand");
    let filename = get_text(args, "filename");
    match (subcommand, filename) {
        (Some(subcommand), Some(filename)) => {
            if !beneath_root(filename.as_str()) {
                return Task::Reply(
                    tool_error("file_editor", outside_message(filename.as_str()).as_str()),
                );
            }
            let harmless = text_eq(subcommand.as_str(), "read") || text_eq(
                subcommand.as_str(),
                "search",
            );
            Task::Edit {
                subcommand,
                filename,
                data: get_text(args, "data"),
                replacement: get_text(args, "replacement"),
                skip_confirmation: harmless || unattended,
            }
        },
        _ => Task::Reply(
            tool_error("file_editor", "Missing required parameters 'subcommand' or 'filename'"),
        ),
    }
}

/// Decides what has to happen for a tool invocation.
pub fn task_of(inv: &ToolInvocation, unattended: bool) -> (task: Task)
    ensures
        task@ == task_for(*inv, unattended),
{
    match lookup_tool(inv.name.as_str()) {
        Some(Tool::ExecuteCommand) => process_execute_command(&inv.args),
        Some(Tool::SearchOnline) => process_search_online(&inv.args),
        Some(Tool::SendEmail) => process_send_email(&inv.args),
        Some(Tool::ScrapeUrl) => process_scrape_url(&inv.args),
        Some(Tool::StockQuery) => process_stock_query(&inv.args),
        Some(Tool::FileEditor) => process_file_editor(&inv.args, unattended),
        None => {
            let mut what = String::new();
            push_text(&mut what, "Unknown function: ");
            push_text(&mut what, inv.name.as_str());
            assert(what@ =~= "Unknown function: "@ + inv.name@);
            Task::Reply(tool_error("unknown", what.as_str()))
        },
    }
}

} // verus!
