//! What the model asks for: the tool invocations carried by a response, and
//! their named arguments.

use vstd::prelude::*;
use crate::text::{option_text, text_eq};

verus! {

/// The value of a named argument, as far as any tool reads it.
pub enum ArgValue {
    /// A string.
    Text(String),
    /// A boolean.
    Flag(bool),
    /// Anything else.
    Other,
}

/// A named argument of a tool invocation.
pub struct Argument {
    pub name: String,
    pub value: ArgValue,
}

/// A request of the model to run one tool.
pub struct ToolInvocation {
    /// The token that ties the result to the request.
    pub id: String,
    /// The name of the tool.
    pub name: String,
    /// The arguments, each name at most once.
    pub args: Vec<Argument>,
}

/// A tool call as the model's response carries it.
pub struct ToolCall {
    /// The token that ties the result to the request; empty if none came.
    pub id: String,
    /// The name of the tool, if the call gives one.
    pub name: Option<String>,
    /// The arguments as JSON text, if the call gives any.
    pub arguments: Option<String>,
}

/// One message of the model.
pub struct Reply {
    /// The text written by the model, if any.
    pub content: Option<String>,
    /// The tool calls that come with the message.
    pub tool_calls: Vec<ToolCall>,
}

/// A response of the model: zero or more messages.
pub struct ModelResponse {
    pub choices: Vec<Reply>,
}

/// An argument as plain values: its name, the string it holds if it holds
/// one, the boolean it holds if it holds one.
pub open spec fn member(a: Argument) -> (Seq<char>, Option<Seq<char>>, Option<bool>) {
    match a.value {
        ArgValue::Text(s) => (a.name@, Some(s@), None),
        ArgValue::Flag(b) => (a.name@, None, Some(b)),
        ArgValue::Other => (a.name@, None, None),
    }
}

/// Arguments as plain values.
pub open spec fn members(args: Seq<Argument>) -> Seq<(Seq<char>, Option<Seq<char>>, Option<bool>)> {
    Seq::new(args.len(), |i: int| member(args[i]))
}

/// What `text` holds when it is read as JSON: the members of the object, in
/// the order in which the object yields them, each with the string or the
/// boolean it holds; no members for JSON that is not an object; `None` for
/// text that is not JSON.
pub uninterp spec fn json_members(text: Seq<char>) -> Option<
    Seq<(Seq<char>, Option<Seq<char>>, Option<bool>)>,
>;

/// Reads `text` with `serde_json::from_str` as a `serde_json::Value`.
/// Believed: the result lists the members of the object that the text
/// denotes, is empty for any other JSON value, and is `None` where
/// `from_str` fails.
#[verifier::external_body]
pub(crate) fn parse_arguments(text: &str) -> (r: Option<Vec<Argument>>)
    ensures
        match r {
            Some(v) => json_members(text@) == Some(members(v@)),
            None => json_members(text@) is None,
        },
{
    let value = serde_json::from_str::<serde_json::Value>(text).ok()?;
    let serde_json::Value::Object(map) = value else { return Some(Vec::new()) };
    let member = |(name, v): (String, serde_json::Value)| match v {
        serde_json::Value::String(s) => Argument { name, value: ArgValue::Text(s) },
        serde_json::Value::Bool(b) => Argument { name, value: ArgValue::Flag(b) },
        _ => Argument { name, value: ArgValue::Other },
    };
    Some(map.into_iter().map(member).collect())
}

/// The position of the first argument named `key`, or `args.len()`.
pub open spec fn arg_index(args: Seq<Argument>, key: Seq<char>) -> int
    decreases args.len(),
{
    if args.len() == 0 {
        0
    } else if args[0].name@ == key {
        0
    } else {
        1 + arg_index(args.skip(1), key)
    }
}

proof fn lemma_arg_index(args: Seq<Argument>, key: Seq<char>, k: int)
    requires
        0 <= k <= args.len(),
        forall|j: int| 0 <= j < k ==> args[j].name@ != key,
        k < args.len() ==> args[k].name@ == key,
    ensures
        arg_index(args, key) == k,
    decreases args.len(),
{
    if args.len() == 0 || k == 0 {
    } else {
        assert(args[0].name@ != key);
        let t = args.skip(1);
        assert forall|j: int| 0 <= j < k - 1 implies t[j].name@ != key by {
            assert(t[j] == args[j + 1]);
        }
        lemma_arg_index(t, key, k - 1);
    }
}

/// The string that the argument `key` holds, if there is such an argument and
/// it holds a string.
pub open spec fn arg_text(args: Seq<Argument>, key: Seq<char>) -> Option<Seq<char>> {
    let i = arg_index(args, key);
    if 0 <= i < args.len() {
        match args[i].value {
            ArgValue::Text(s) => Some(s@),
            _ => None,
        }
    } else {
        None
    }
}

/// The boolean that the argument `key` holds, if there is such an argument
/// and it holds a boolean.
pub open spec fn arg_flag(args: Seq<Argument>, key: Seq<char>) -> Option<bool> {
    let i = arg_index(args, key);
    if 0 <= i < args.len() {
        match args[i].value {
            ArgValue::Flag(b) => Some(b),
            _ => None,
        }
    } else {
        None
    }
}

fn find_arg(args: &Vec<Argument>, key: &str) -> (i: usize)
    ensures
        i == arg_index(args@, key@),
        i <= args.len(),
{
    let mut i: usize = 0;
    while i < args.len()
        invariant
            i <= args.len(),
            forall|j: int| 0 <= j < i ==> args@[j].name@ != key@,
        decreases args.len() - i,
    {
        if text_eq(args[i].name.as_str(), key) {
            proof {
                lemma_arg_index(args@, key@, i as int);
            }
            return i;
        }
        i += 1;
    }
    proof {
        lemma_arg_index(args@, key@, i as int);
    }
    i
}

/// Reads a string argument.
pub fn get_text(args: &Vec<Argument>, key: &str) -> (r: Option<String>)
    ensures
        option_text(r) == arg_text(args@, key@),
{
    let i = find_arg(args, key);
    if i < args.len() {
        match &args[i].value {
            ArgValue::Text(s) => Some(s.clone()),
            _ => None,
        }
    } else {
        None
    }
}

/// Reads a boolean argument.
pub fn get_flag(args: &Vec<Argument>, key: &str) -> (r: Option<bool>)
    ensures
        r == arg_flag(args@, key@),
{
    let i = find_arg(args, key);
    if i < args.len() {
        match &args[i].value {
            ArgValue::Flag(b) => Some(*b),
            _ => None,
        }
    } else {
        None
    }
}

/// Reads a string argument, with a default for when it is missing or no
/// string.
pub fn get_opt_str(args: &Vec<Argument>, key: &str, default: &str) -> (r: String)
    ensures
        r@ == match arg_text(args@, key@) {
            Some(s) => s,
            None => default@,
        },
{
    match get_text(args, key) {
        Some(s) => s,
        None => default.to_owned(),
    }
}

/// Reads a boolean argument, with a default for when it is missing or no
/// boolean.
pub fn get_opt_bool(args: &Vec<Argument>, key: &str, default: bool) -> (r: bool)
    ensures
        r == match arg_flag(args@, key@) {
            Some(b) => b,
            None => default,
        },
{
    match get_flag(args, key) {
        Some(b) => b,
        None => default,
    }
}

/// Whether a tool call names a tool.
pub open spec fn has_name(call: ToolCall) -> bool {
    call.name matches Some(n) && n@.len() > 0
}

/// The tool calls of all messages, in the order in which they came.
pub open spec fn all_calls(choices: Seq<Reply>) -> Seq<ToolCall>
    decreases choices.len(),
{
    if choices.len() == 0 {
        Seq::empty()
    } else {
        all_calls(choices.drop_last()) + choices.last().tool_calls@
    }
}

/// Those of `calls` that name a tool, in the same order.
pub open spec fn named_calls(calls: Seq<ToolCall>) -> Seq<ToolCall>
    decreases calls.len(),
{
    if calls.len() == 0 {
        Seq::empty()
    } else if has_name(calls.last()) {
        named_calls(calls.drop_last()).push(calls.last())
    } else {
        named_calls(calls.drop_last())
    }
}

/// The arguments that a tool call carries: the members of its JSON object,
/// and none if it carries no arguments or they cannot be read.
pub open spec fn arguments_of(arguments: Option<String>) -> Seq<
    (Seq<char>, Option<Seq<char>>, Option<bool>),
> {
    match arguments {
        Some(text) => match json_members(text@) {
            Some(m) => m,
            None => Seq::empty(),
        },
        None => Seq::empty(),
    }
}

/// Whether `inv` is the invocation that `call` asks for.
pub open spec fn invokes(inv: ToolInvocation, call: ToolCall) -> bool {
    &&& call.name is Some
    &&& inv.name@ == call.name->0@
    &&& inv.id@ == call.id@
    &&& members(inv.args@) == arguments_of(call.arguments)
}

/// Whether `invs` are the invocations that `calls` ask for, one for one.
pub open spec fn invoke_all(invs: Seq<ToolInvocation>, calls: Seq<ToolCall>) -> bool {
    &&& invs.len() == calls.len()
    &&& forall|i: int| 0 <= i < invs.len() ==> invokes(#[trigger] invs[i], calls[i])
}

/// The invocation that a tool call asks for, if the call names a tool.
pub fn invocation_of(call: &ToolCall) -> (r: Option<ToolInvocation>)
    ensures
        r is Some == has_name(*call),
        r matches Some(inv) ==> invokes(inv, *call),
{
    let name = match &call.name {
        Some(n) => n.clone(),
        None => { return None; },
    };
    if name.as_str().is_empty() {
        return None;
    }
    let args = match &call.arguments {
        Some(text) => match parse_arguments(text.as_str()) {
            Some(v) => v,
            None => Vec::new(),
        },
        None => Vec::new(),
    };
    assert(members(args@) =~= arguments_of(call.arguments));
    Some(ToolInvocation { id: call.id.clone(), name, args })
}

/// The tool invocations that a response carries: every tool call that names
/// a tool, in the order in which the response lists them.
pub fn extract_tool_calls(response: &ModelResponse) -> (invs: Vec<ToolInvocation>)
    ensures
        invoke_all(invs@, named_calls(all_calls(response.choices@))),
{
    let mut invs: Vec<ToolInvocation> = Vec::new();
    let mut i: usize = 0;
    assert(response.choices@.take(0) =~= Seq::<Reply>::empty());
    while i < response.choices.len()
        invariant
            i <= response.choices.len(),
            invoke_all(invs@, named_calls(all_calls(response.choices@.take(i as int)))),
        decreases response.choices.len() - i,
    {
        let calls = &response.choices[i].tool_calls;
        let ghost before = all_calls(response.choices@.take(i as int));
        let mut j: usize = 0;
        assert(calls@.take(0) =~= Seq::<ToolCall>::empty());
        assert(before + Seq::<ToolCall>::empty() =~= before);
        while j < calls.len()
            invariant
                j <= calls.len(),
                invoke_all(invs@, named_calls(before + calls@.take(j as int))),
            decreases calls.len() - j,
        {
            proof {
                let seen = before + calls@.take(j as int);
                let next = before + calls@.take(j + 1);
                assert(next.drop_last() =~= seen);
                assert(next.last() == calls@[j as int]);
            }
            match invocation_of(&calls[j]) {
                Some(inv) => {
                    invs.push(inv);
                },
                None => {},
            }
            j += 1;
        }
        proof {
            let grown = response.choices@.take(i + 1);
            assert(grown.drop_last() =~= response.choices@.take(i as int));
            assert(grown.last() == response.choices@[i as int]);
            assert(calls@.take(calls@.len() as int) =~= calls@);
        }
        i += 1;
    }
    assert(response.choices@.take(response.choices@.len() as int) =~= response.choices@);
    invs
}

/// The texts that a response gives to show, in the order of its messages.
pub open spec fn contents(choices: Seq<Reply>) -> Seq<Seq<char>>
    decreases choices.len(),
{
    if choices.len() == 0 {
        Seq::empty()
    } else {
        match choices.last().content {
            Some(text) => contents(choices.drop_last()).push(text@),
            None => contents(choices.drop_last()),
        }
    }
}

/// The texts of a response that are to be shown to the human.
pub fn display_response(response: &ModelResponse) -> (shown: Vec<String>)
    ensures
        crate::text::texts(shown@) == contents(response.choices@),
{
    let mut shown: Vec<String> = Vec::new();
    let mut i: usize = 0;
    assert(response.choices@.take(0) =~= Seq::<Reply>::empty());
    while i < response.choices.len()
        invariant
            i <= response.choices.len(),
            crate::text::texts(shown@) == contents(response.choices@.take(i as int)),
        decreases response.choices.len() - i,
    {
        proof {
            let grown = response.choices@.take(i + 1);
            assert(grown.drop_last() =~= response.choices@.take(i as int));
            assert(grown.last() == response.choices@[i as int]);
        }
        match &response.choices[i].content {
            Some(text) => {
                let ghost before = shown@;
                shown.push(text.clone());
                assert(crate::text::texts(shown@) =~= crate::text::texts(before).push(text@));
            },
            None => {},
        }
        i += 1;
    }
    assert(response.choices@.take(response.choices@.len() as int) =~= response.choices@);
    shown
}

} // verus!
