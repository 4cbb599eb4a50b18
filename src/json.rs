//! JSON text: parsing tool arguments and framing tool calls for replay.
use vstd::prelude::*;
use crate::types::ToolCall;

verus! {

#[verifier::external_type_specification]
#[verifier::external_body]
pub struct ExJsonValue(serde_json::Value);

/// The error message parsing `text` as JSON gives, or `None` where it parses.
pub uninterp spec fn json_parse_error(text: Seq<char>) -> Option<Seq<char>>;

/// `text` is well-formed JSON.
pub open spec fn is_json(text: Seq<char>) -> bool {
    json_parse_error(text) is None
}

/// Relies on `serde_json::from_str`: parses JSON text into a value; whether
/// it succeeds, and the error message where it does not, depend on the text
/// alone.
#[verifier::external_body]
pub(crate) fn parse_json(text: &str) -> (r: Result<serde_json::Value, String>)
    ensures
        match r {
            Ok(_) => json_parse_error(text@) is None,
            Err(e) => json_parse_error(text@) == Some(e@),
        },
{
    match serde_json::from_str(text) {
        Ok(v) => Ok(v),
        Err(e) => Err(e.to_string()),
    }
}

/// A lower-case hexadecimal digit, for `d < 16`.
pub open spec fn hex_digit(d: nat) -> char {
    if d < 10 {
        ((48 + d) as u8) as char
    } else {
        ((87 + d) as u8) as char
    }
}

/// How one character is written inside a JSON string: quote and backslash
/// escaped, the short escapes for backspace, tab, newline, form feed and
/// carriage return, `\u00XX` for the other control characters below 0x20,
/// every other character as it is.
pub open spec fn json_escape(c: char) -> Seq<char> {
    if c == '"' {
        seq!['\\', '"']
    } else if c == '\\' {
        seq!['\\', '\\']
    } else if c == '\u{8}' {
        seq!['\\', 'b']
    } else if c == '\t' {
        seq!['\\', 't']
    } else if c == '\n' {
        seq!['\\', 'n']
    } else if c == '\u{c}' {
        seq!['\\', 'f']
    } else if c == '\r' {
        seq!['\\', 'r']
    } else if (c as u32) < 32 {
        seq!['\\', 'u', '0', '0', hex_digit((c as u32 / 16) as nat), hex_digit((c as u32 % 16) as nat)]
    } else {
        seq![c]
    }
}

/// The characters of `s` escaped for a JSON string.
pub open spec fn json_escaped(s: Seq<char>) -> Seq<char>
    decreases s.len(),
{
    if s.len() == 0 {
        seq![]
    } else {
        json_escaped(s.drop_last()) + json_escape(s.last())
    }
}

/// `s` written as a JSON string literal.
pub open spec fn json_quoted(s: Seq<char>) -> Seq<char> {
    seq!['"'] + json_escaped(s) + seq!['"']
}

/// Relies on `serde_json::to_string` on a string slice: the JSON string
/// literal for `s`, escaped by serde_json's table; writing a string slice
/// into memory does not fail.
#[verifier::external_body]
fn quote_json(s: &str) -> (r: String)
    ensures
        r@ == json_quoted(s@),
{
    serde_json::to_string(s).unwrap_or_default()
}

/// A tool call as plain values.
pub struct ToolCallView {
    pub id: Seq<char>,
    pub name: Seq<char>,
    pub arguments: Seq<char>,
}

impl View for ToolCall {
    type V = ToolCallView;

    open spec fn view(&self) -> ToolCallView {
        ToolCallView { id: self.id@, name: self.name@, arguments: self.arguments@ }
    }
}

/// The views of a list of tool calls.
pub open spec fn calls_view(v: Seq<ToolCall>) -> Seq<ToolCallView> {
    v.map_values(|c: ToolCall| c@)
}

/// One tool call as a JSON object, keys in sorted order.
pub open spec fn call_object(c: ToolCallView) -> Seq<char> {
    "{\"function\":{\"arguments\":"@ + json_quoted(c.arguments) + ",\"name\":"@ + json_quoted(
        c.name,
    ) + "},\"id\":"@ + json_quoted(c.id) + ",\"type\":\"function\"}"@
}

/// The objects of `cs`, separated by commas.
pub open spec fn call_objects(cs: Seq<ToolCallView>) -> Seq<char>
    decreases cs.len(),
{
    if cs.len() == 0 {
        seq![]
    } else if cs.len() == 1 {
        call_object(cs[0])
    } else {
        call_objects(cs.drop_last()) + ","@ + call_object(cs.last())
    }
}

/// The JSON array of `cs`.
pub open spec fn calls_json(cs: Seq<ToolCallView>) -> Seq<char> {
    "["@ + call_objects(cs) + "]"@
}

fn encode_call(c: &ToolCall) -> (r: String)
    ensures
        r@ == call_object(c@),
{
    let args = quote_json(c.arguments.as_str());
    let name = quote_json(c.name.as_str());
    let id = quote_json(c.id.as_str());
    let mut t = String::from_str("{\"function\":{\"arguments\":");
    t.append(args.as_str());
    t.append(",\"name\":");
    t.append(name.as_str());
    t.append("},\"id\":");
    t.append(id.as_str());
    t.append(",\"type\":\"function\"}");
    t
}

/// The tool calls as a JSON array, in the order given.
pub fn encode_tool_calls(calls: &Vec<ToolCall>) -> (r: String)
    ensures
        r@ == calls_json(calls_view(calls@)),
{
    let mut body = String::new();
    let mut i: usize = 0;
    while i < calls.len()
        invariant
            i <= calls@.len(),
            body@ == call_objects(calls_view(calls@.subrange(0, i as int))),
        decreases calls@.len() - i,
    {
        let obj = encode_call(&calls[i]);
        let ghost prev = calls_view(calls@.subrange(0, i as int));
        let ghost next = calls_view(calls@.subrange(0, i as int + 1));
        assert(next.drop_last() =~= prev);
        assert(next.last() == calls@[i as int]@);
        if i > 0 {
            body.append(",");
        } else {
            assert(prev =~= seq![]);
        }
        body.append(obj.as_str());
        i = i + 1;
        assert(body@ =~= call_objects(next));
    }
    assert(calls@.subrange(0, i as int) =~= calls@);
    let mut t = String::from_str("[");
    t.append(body.as_str());
    t.append("]");
    t
}

} // verus!
