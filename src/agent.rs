//! One turn of the agent: from the prompt for an inbound message to a final
//! answer, an error notice or the step limit.
//!
//! A [`Turn`] decides; its caller acts. Each method takes what the last action
//! produced (a model reply, a failure, a tool's output) and returns the audit
//! records to write, the tool metrics to record and the next action.
use vstd::prelude::*;
use crate::json::{is_json, json_parse_error, parse_json, encode_tool_calls, calls_view, calls_json, ToolCallView};
use crate::registry::{AllowedTools, ToolRegistry, permits};
use crate::text::{decimal, decimal_string, has_prefix, starts_with_str};
use crate::tools::{ToolError, tool_error_text};
use crate::types::{GenerationResponse, Message, MessageView, Role, ToolCall, Usage, messages_view, pairs_view};

verus! {

/// Model calls allowed for one inbound message.
pub const MAX_ITERATIONS: usize = 10;

/// Attempts made for one model call before the turn fails.
pub const LLM_RETRIES: usize = 3;

/// The first wait between two attempts of a model call, in milliseconds.
pub const RETRY_BASE_DELAY_MS: u64 = 1000;

/// Characters of a tool's output kept in its audit record.
pub const PREVIEW_CHARS: usize = 200;

/// A structured audit record.
pub struct AuditEvent {
    /// `llm_completion`, `tool_execution` or `security_violation`.
    pub kind: String,
    pub session_key: String,
    /// Named values of the record, in order.
    pub fields: Vec<(String, String)>,
}

/// Timing and outcome of one tool call, for per-tool metrics.
pub struct ToolMetric {
    pub tool: String,
    pub duration_ms: u64,
    pub success: bool,
}

/// Where a turn stands.
#[derive(Clone, Copy, Debug, PartialEq, Eq, Structural)]
pub enum Phase {
    /// The model is being called.
    AwaitingModel,
    /// Waiting before the model is called again.
    AwaitingRetry,
    /// A tool is running.
    AwaitingTool,
    /// Tool calls of the last reply are being settled.
    Dispatching,
    /// The turn is over.
    Done,
}

/// What the caller does next.
pub enum TurnAction {
    /// Call the model with the turn's messages.
    CallModel,
    /// Wait, then call the model again.
    Wait { delay_ms: u64 },
    /// Run the tool `name` with the parsed arguments.
    RunTool { call_id: String, name: String, arguments: serde_json::Value },
    /// Store `reply` in the session, publish it, and summarize if due.
    Finish { reply: Message },
    /// Publish `notice` to the user; the turn is over.
    Fail { notice: Message },
}

/// The outcome of one decision.
pub struct Step {
    pub audits: Vec<AuditEvent>,
    pub metrics: Vec<ToolMetric>,
    pub action: TurnAction,
}

/// Text of the message that reports a tool refused by the permission check.
pub open spec fn denial_text(name: Seq<char>) -> Seq<char> {
    "Error: Tool '"@ + name + "' is not authorized by any active skill."@
}

/// Text of the result of a call to an unregistered tool.
pub open spec fn not_found_text(name: Seq<char>) -> Seq<char> {
    "Tool not found: "@ + name
}

/// How the text of a failed argument parse begins.
pub open spec fn parse_error_prefix() -> Seq<char> {
    "Error parsing arguments: "@
}

/// Text of the result of a tool that failed.
pub open spec fn execution_error_text(e: ToolError) -> Seq<char> {
    "Error executing tool: "@ + tool_error_text(e)
}

/// A tool's result text reports success: it begins with none of the error
/// markers.
pub open spec fn result_ok(text: Seq<char>) -> bool {
    !has_prefix(text, "Error"@) && !has_prefix(text, "Permission denied"@) && !has_prefix(
        text,
        "Tool not found"@,
    )
}

/// The wait before attempt `attempt + 1` of a model call.
pub open spec fn retry_delay_ms(attempt: nat) -> nat
    decreases attempt,
{
    if attempt == 0 {
        RETRY_BASE_DELAY_MS as nat
    } else {
        2 * retry_delay_ms((attempt - 1) as nat)
    }
}

/// The wait after the failed attempt number `attempt` (from 0) of a model
/// call, or `None` when no attempt is left.
pub fn retry_delay(attempt: usize) -> (r: Option<u64>)
    ensures
        attempt + 1 < LLM_RETRIES ==> (r matches Some(d) && d == retry_delay_ms(attempt as nat)),
        attempt + 1 >= LLM_RETRIES ==> r is None,
{
    if attempt >= LLM_RETRIES - 1 {
        return None;
    }
    let mut delay: u64 = RETRY_BASE_DELAY_MS;
    let mut k: usize = 0;
    while k < attempt
        invariant
            k <= attempt,
            attempt + 1 < LLM_RETRIES,
            delay == retry_delay_ms(k as nat),
        decreases attempt - k,
    {
        delay = delay * 2;
        k = k + 1;
    }
    Some(delay)
}

/// `registry` holds a tool called `name`.
pub open spec fn registered(registry: ToolRegistry, name: Seq<char>) -> bool {
    exists|i: int| 0 <= i < registry.definitions().len() && registry.definitions()[i].name == name
}

/// Whether tool result text reports success.
pub fn tool_result_ok(text: &str) -> (r: bool)
    ensures
        r == result_ok(text@),
{
    !starts_with_str(text, "Error") && !starts_with_str(text, "Permission denied")
        && !starts_with_str(text, "Tool not found")
}

/// The first `PREVIEW_CHARS` characters of `text`.
pub fn output_preview(text: &str) -> (r: String)
    ensures
        text@.len() <= PREVIEW_CHARS ==> r@ == text@,
        text@.len() > PREVIEW_CHARS ==> r@ == text@.subrange(0, PREVIEW_CHARS as int),
{
    let n = text.unicode_len();
    if n <= PREVIEW_CHARS {
        String::from_str(text)
    } else {
        String::from_str(text.substring_char(0, PREVIEW_CHARS))
    }
}

fn pair(key: &str, value: String) -> (r: (String, String))
    ensures
        r.0@ == key@,
        r.1@ == value@,
{
    (String::from_str(key), value)
}

fn text(s: &str) -> (r: String)
    ensures
        r@ == s@,
{
    String::from_str(s)
}

/// Role, text and annotations of a message.
pub struct Note {
    pub role: Role,
    pub content: Seq<char>,
    pub metadata: Seq<(Seq<char>, Seq<char>)>,
}

pub open spec fn note_of(m: MessageView) -> Note {
    Note { role: m.role, content: m.content, metadata: m.metadata }
}

pub open spec fn notes_of(ms: Seq<MessageView>) -> Seq<Note> {
    ms.map_values(|m: MessageView| note_of(m))
}

/// An audit record as plain values.
pub struct AuditView {
    pub kind: Seq<char>,
    pub session_key: Seq<char>,
    pub fields: Seq<(Seq<char>, Seq<char>)>,
}

pub open spec fn audit_of(a: AuditEvent) -> AuditView {
    AuditView { kind: a.kind@, session_key: a.session_key@, fields: pairs_view(a.fields@) }
}

pub open spec fn audits_of(v: Seq<AuditEvent>) -> Seq<AuditView> {
    v.map_values(|a: AuditEvent| audit_of(a))
}

/// A tool metric as plain values.
pub struct MetricView {
    pub tool: Seq<char>,
    pub duration_ms: nat,
    pub success: bool,
}

pub open spec fn metric_of(m: ToolMetric) -> MetricView {
    MetricView { tool: m.tool@, duration_ms: m.duration_ms as nat, success: m.success }
}

pub open spec fn metrics_of(v: Seq<ToolMetric>) -> Seq<MetricView> {
    v.map_values(|m: ToolMetric| metric_of(m))
}

/// The first `PREVIEW_CHARS` characters of `t`.
pub open spec fn preview(t: Seq<char>) -> Seq<char> {
    if t.len() <= PREVIEW_CHARS {
        t
    } else {
        t.subrange(0, PREVIEW_CHARS as int)
    }
}

/// The audit record of a tool call that produced `result`.
pub open spec fn exec_audit(
    key: Seq<char>,
    tool: Seq<char>,
    args: Seq<char>,
    result: Seq<char>,
    duration_ms: nat,
) -> AuditView {
    AuditView {
        kind: "tool_execution"@,
        session_key: key,
        fields: seq![
            ("tool"@, tool),
            ("args"@, args),
            ("output_preview"@, preview(result)),
            ("duration_ms"@, decimal(duration_ms)),
            ("success"@, if has_prefix(result, "Error"@) { "false"@ } else { "true"@ }),
        ],
    }
}

/// The audit record of a call refused by the permission check.
pub open spec fn blocked_audit(key: Seq<char>, tool: Seq<char>) -> AuditView {
    AuditView {
        kind: "security_violation"@,
        session_key: key,
        fields: seq![("type"@, "tool_blocked"@), ("tool"@, tool), ("reason"@, "default_deny"@)],
    }
}

/// The audit record of a completion that reported its token counts.
pub open spec fn usage_audits(key: Seq<char>, model: Seq<char>, usage: Option<Usage>, iteration: nat) -> Seq<
    AuditView,
> {
    match usage {
        Some(u) => seq![
            AuditView {
                kind: "llm_completion"@,
                session_key: key,
                fields: seq![
                    ("model"@, model),
                    ("input_tokens"@, decimal(u.input_tokens as nat)),
                    ("output_tokens"@, decimal(u.output_tokens as nat)),
                    ("iteration"@, decimal(iteration)),
                ],
            },
        ],
        None => seq![],
    }
}

/// The call is answered without running: it is refused, names no registered
/// tool, or carries arguments that are not JSON.
pub open spec fn settles(allowed: AllowedTools, registry: ToolRegistry, c: ToolCallView) -> bool {
    !permits(allowed, c.name) || !registered(registry, c.name) || !is_json(c.arguments)
}

/// The text that answers a call that does not run.
pub open spec fn settled_text(allowed: AllowedTools, registry: ToolRegistry, c: ToolCallView) -> Seq<
    char,
> {
    if !permits(allowed, c.name) {
        denial_text(c.name)
    } else if !registered(registry, c.name) {
        not_found_text(c.name)
    } else {
        parse_error_prefix() + json_parse_error(c.arguments)->Some_0
    }
}

/// The `Tool` message that answers a call that does not run: tied to the
/// call's id unless the call was refused.
pub open spec fn settled_note(allowed: AllowedTools, registry: ToolRegistry, c: ToolCallView) -> Note {
    Note {
        role: Role::Tool,
        content: settled_text(allowed, registry, c),
        metadata: if !permits(allowed, c.name) {
            seq![]
        } else {
            seq![("tool_call_id"@, c.id)]
        },
    }
}

/// The audit record of a call that does not run.
pub open spec fn settled_audit(
    key: Seq<char>,
    allowed: AllowedTools,
    registry: ToolRegistry,
    c: ToolCallView,
) -> AuditView {
    if !permits(allowed, c.name) {
        blocked_audit(key, c.name)
    } else {
        exec_audit(key, c.name, c.arguments, settled_text(allowed, registry, c), 0)
    }
}

pub open spec fn settled_notes(allowed: AllowedTools, registry: ToolRegistry, cs: Seq<ToolCallView>) -> Seq<
    Note,
> {
    cs.map_values(|c: ToolCallView| settled_note(allowed, registry, c))
}

pub open spec fn settled_audits(
    key: Seq<char>,
    allowed: AllowedTools,
    registry: ToolRegistry,
    cs: Seq<ToolCallView>,
) -> Seq<AuditView> {
    cs.map_values(|c: ToolCallView| settled_audit(key, allowed, registry, c))
}

/// The metrics of calls that do not run: none for refused calls.
pub open spec fn settled_metrics(allowed: AllowedTools, registry: ToolRegistry, cs: Seq<ToolCallView>) -> Seq<
    MetricView,
>
    decreases cs.len(),
{
    if cs.len() == 0 {
        seq![]
    } else {
        let rest = settled_metrics(allowed, registry, cs.drop_last());
        let c = cs.last();
        if !permits(allowed, c.name) {
            rest
        } else {
            rest.push(
                MetricView {
                    tool: c.name,
                    duration_ms: 0,
                    success: result_ok(settled_text(allowed, registry, c)),
                },
            )
        }
    }
}

/// The first call at or after `from` that runs, or the batch length.
pub open spec fn first_runnable(
    allowed: AllowedTools,
    registry: ToolRegistry,
    cs: Seq<ToolCallView>,
    from: int,
) -> int
    decreases cs.len() - from,
{
    if from < 0 || from >= cs.len() {
        cs.len() as int
    } else if !settles(allowed, registry, cs[from]) {
        from
    } else {
        first_runnable(allowed, registry, cs, from + 1)
    }
}

proof fn lemma_first_runnable(allowed: AllowedTools, registry: ToolRegistry, cs: Seq<ToolCallView>, from: int)
    requires
        0 <= from <= cs.len(),
    ensures
        from <= first_runnable(allowed, registry, cs, from) <= cs.len(),
        first_runnable(allowed, registry, cs, from) < cs.len() ==> !settles(
            allowed,
            registry,
            cs[first_runnable(allowed, registry, cs, from)],
        ),
    decreases cs.len() - from,
{
    if from < cs.len() && settles(allowed, registry, cs[from]) {
        lemma_first_runnable(allowed, registry, cs, from + 1);
    }
}

proof fn lemma_settled_metrics_one(allowed: AllowedTools, registry: ToolRegistry, c: ToolCallView)
    ensures
        settled_metrics(allowed, registry, seq![c]) == if !permits(allowed, c.name) {
            Seq::<MetricView>::empty()
        } else {
            seq![
                MetricView {
                    tool: c.name,
                    duration_ms: 0,
                    success: result_ok(settled_text(allowed, registry, c)),
                },
            ]
        },
{
    assert(seq![c].drop_last() =~= Seq::<ToolCallView>::empty());
    assert(settled_metrics(allowed, registry, Seq::<ToolCallView>::empty()) =~= Seq::<MetricView>::empty());
    assert(Seq::<MetricView>::empty().push(
        MetricView {
            tool: c.name,
            duration_ms: 0,
            success: result_ok(settled_text(allowed, registry, c)),
        },
    ) =~= seq![
        MetricView {
            tool: c.name,
            duration_ms: 0,
            success: result_ok(settled_text(allowed, registry, c)),
        },
    ]);
}

/// The notice that ends a turn at the step limit.
pub open spec fn max_steps_text() -> Seq<char> {
    "\u{26a0}\u{fe0f} I reached the maximum number of processing steps ("@ + decimal(
        MAX_ITERATIONS as nat,
    ) + "). My last response may be incomplete. Please try rephrasing your request."@
}

/// The notice that ends a turn whose model calls all failed.
pub open spec fn provider_failure_text(error: Seq<char>) -> Seq<char> {
    "\u{26a0}\u{fe0f} I encountered an error communicating with the AI provider: "@ + error
}

/// The text a finished tool call is answered with.
pub open spec fn result_text(output: Result<String, ToolError>) -> Seq<char> {
    match output {
        Ok(s) => s@,
        Err(e) => execution_error_text(e),
    }
}

/// The state of one turn.
pub struct Turn {
    session_key: String,
    model: String,
    allowed: AllowedTools,
    messages: Vec<Message>,
    iteration: usize,
    attempt: usize,
    calls: Vec<ToolCall>,
    next_call: usize,
    phase: Phase,
}

impl Turn {
    /// The messages sent to the model at the next call.
    pub closed spec fn transcript(&self) -> Seq<MessageView> {
        messages_view(self.messages@)
    }

    /// Model calls made for the inbound message, the current one included.
    pub closed spec fn iteration_of(&self) -> nat {
        self.iteration as nat
    }

    /// Attempts of the current model call that have failed.
    pub closed spec fn attempt_of(&self) -> nat {
        self.attempt as nat
    }

    pub closed spec fn phase_of(&self) -> Phase {
        self.phase
    }

    pub closed spec fn allowed_of(&self) -> AllowedTools {
        self.allowed
    }

    pub closed spec fn model_of(&self) -> Seq<char> {
        self.model@
    }

    pub closed spec fn key_of(&self) -> Seq<char> {
        self.session_key@
    }

    /// The tool calls of the last reply.
    pub closed spec fn batch(&self) -> Seq<ToolCall> {
        self.calls@
    }

    /// How many calls of the batch have been taken up.
    pub closed spec fn taken(&self) -> nat {
        self.next_call as nat
    }

    /// The state is consistent: the model has been called at most
    /// `MAX_ITERATIONS` times and the batch position is in range.
    pub closed spec fn well_formed(&self) -> bool {
        &&& 1 <= self.iteration <= MAX_ITERATIONS
        &&& self.attempt < LLM_RETRIES
        &&& self.next_call <= self.calls@.len()
        &&& self.phase == Phase::AwaitingTool ==> self.next_call >= 1
    }

    /// A turn about to make its first model call with `context` as prompt.
    pub fn new(session_key: &str, model: &str, allowed: AllowedTools, context: Vec<Message>) -> (r:
        Turn)
        ensures
            r.well_formed(),
            r.phase_of() == Phase::AwaitingModel,
            r.iteration_of() == 1,
            r.attempt_of() == 0,
            r.transcript() == messages_view(context@),
            r.allowed_of() == allowed,
            r.key_of() == session_key@,
    {
        Turn {
            session_key: String::from_str(session_key),
            model: String::from_str(model),
            allowed,
            messages: context,
            iteration: 1,
            attempt: 0,
            calls: Vec::new(),
            next_call: 0,
            phase: Phase::AwaitingModel,
        }
    }

    /// Where the turn stands.
    pub fn phase(&self) -> (r: Phase)
        ensures
            r == self.phase_of(),
    {
        self.phase
    }

    /// Number of the current model call, from 1.
    pub fn iteration(&self) -> (r: usize)
        ensures
            r == self.iteration_of(),
    {
        self.iteration
    }

    /// The messages to send to the model.
    pub fn messages(&self) -> (r: &Vec<Message>)
        ensures
            messages_view(r@) == self.transcript(),
    {
        &self.messages
    }

    fn push_message(&mut self, m: Message)
        ensures
            final(self).transcript() == old(self).transcript().push(m@),
            final(self).messages@.len() == old(self).messages@.len() + 1,
            final(self).session_key == old(self).session_key,
            final(self).model == old(self).model,
            final(self).allowed == old(self).allowed,
            final(self).iteration == old(self).iteration,
            final(self).attempt == old(self).attempt,
            final(self).calls == old(self).calls,
            final(self).next_call == old(self).next_call,
            final(self).phase == old(self).phase,
    {
        let ghost before = self.messages@;
        self.messages.push(m);
        assert(messages_view(self.messages@) =~= messages_view(before).push(m@));
    }

    fn notice(&self, text: String) -> (r: Message)
        ensures
            r@.content == text@,
            r@.role == Role::Assistant,
            r@.session_key == self.session_key@,
    {
        Message::new("agent", self.session_key.as_str(), Role::Assistant, text.as_str())
    }

    fn tool_execution_audit(&self, tool: &str, args: &str, result: &str, duration_ms: u64) -> (r:
        AuditEvent)
        ensures
            audit_of(r) == exec_audit(self.session_key@, tool@, args@, result@, duration_ms as nat),
    {
        let mut fields: Vec<(String, String)> = Vec::new();
        fields.push(pair("tool", text(tool)));
        fields.push(pair("args", text(args)));
        fields.push(pair("output_preview", output_preview(result)));
        fields.push(pair("duration_ms", decimal_string(duration_ms)));
        proof {
            reveal_strlit("Error");
        }
        let ok = !starts_with_str(result, "Error");
        fields.push(pair("success", text(if ok { "true" } else { "false" })));
        let r = AuditEvent { kind: text("tool_execution"), session_key: self.session_key.clone(), fields };
        assert(pairs_view(r.fields@) =~= exec_audit(
            self.session_key@,
            tool@,
            args@,
            result@,
            duration_ms as nat,
        ).fields);
        r
    }

    /// Appends the result of a call as a `Tool` message tied to the call's id.
    fn record_result(
        &mut self,
        call_index: usize,
        result: String,
        duration_ms: u64,
        audits: &mut Vec<AuditEvent>,
        metrics: &mut Vec<ToolMetric>,
    )
        requires
            call_index < old(self).calls@.len(),
        ensures
            final(self).transcript().len() == old(self).transcript().len() + 1,
            final(self).transcript().drop_last() == old(self).transcript(),
            note_of(final(self).transcript().last()) == (Note {
                role: Role::Tool,
                content: result@,
                metadata: seq![("tool_call_id"@, old(self).calls@[call_index as int].id@)],
            }),
            final(audits)@.len() == old(audits)@.len() + 1,
            final(audits)@.drop_last() == old(audits)@,
            audit_of(final(audits)@.last()) == exec_audit(
                old(self).session_key@,
                old(self).calls@[call_index as int].name@,
                old(self).calls@[call_index as int].arguments@,
                result@,
                duration_ms as nat,
            ),
            final(metrics)@.len() == old(metrics)@.len() + 1,
            final(metrics)@.drop_last() == old(metrics)@,
            metric_of(final(metrics)@.last()) == (MetricView {
                tool: old(self).calls@[call_index as int].name@,
                duration_ms: duration_ms as nat,
                success: result_ok(result@),
            }),
            final(self).session_key == old(self).session_key,
            final(self).model == old(self).model,
            final(self).allowed == old(self).allowed,
            final(self).iteration == old(self).iteration,
            final(self).attempt == old(self).attempt,
            final(self).calls == old(self).calls,
            final(self).next_call == old(self).next_call,
            final(self).phase == old(self).phase,
    {
        let name = self.calls[call_index].name.clone();
        let audit = self.tool_execution_audit(
            name.as_str(),
            self.calls[call_index].arguments.as_str(),
            result.as_str(),
            duration_ms,
        );
        let ghost audits_before = audits@;
        audits.push(audit);
        assert(audits@.drop_last() =~= audits_before);
        let success = tool_result_ok(result.as_str());
        let ghost metrics_before = metrics@;
        metrics.push(ToolMetric { tool: name, duration_ms, success });
        assert(metrics@.drop_last() =~= metrics_before);
        let mut m = Message::new("agent", self.session_key.as_str(), Role::Tool, result.as_str());
        m.annotate("tool_call_id", self.calls[call_index].id.clone());
        assert(m@.metadata =~= seq![("tool_call_id"@, self.calls@[call_index as int].id@)]);
        let ghost before = self.transcript();
        self.push_message(m);
        assert(self.transcript().drop_last() =~= before);
    }

    /// Takes up the next call of the batch. A call that is refused, names no
    /// registered tool or carries arguments that are not JSON gets exactly
    /// one `Tool` message saying so, with its audit record and metric, and
    /// `None` is returned so that the next call follows; otherwise the tool's
    /// name and parsed arguments are returned for it to run.
    pub fn settle_call(
        &mut self,
        registry: &ToolRegistry,
        audits: &mut Vec<AuditEvent>,
        metrics: &mut Vec<ToolMetric>,
    ) -> (r: Option<(String, serde_json::Value)>)
        requires
            old(self).well_formed(),
            old(self).phase_of() == Phase::Dispatching,
            old(self).taken() < old(self).batch().len(),
        ensures
            final(self).well_formed(),
            final(self).phase_of() == Phase::Dispatching,
            final(self).taken() == old(self).taken() + 1,
            final(self).batch() == old(self).batch(),
            final(self).iteration_of() == old(self).iteration_of(),
            final(self).attempt_of() == old(self).attempt_of(),
            final(self).allowed_of() == old(self).allowed_of(),
            final(self).key_of() == old(self).key_of(),
            final(self).model_of() == old(self).model_of(),
            ({
                let c = calls_view(old(self).batch())[old(self).taken() as int];
                let allowed = old(self).allowed_of();
                &&& r is None <==> settles(allowed, *registry, c)
                &&& r is None ==> {
                    &&& final(self).transcript().len() == old(self).transcript().len() + 1
                    &&& final(self).transcript().drop_last() == old(self).transcript()
                    &&& note_of(final(self).transcript().last()) == settled_note(
                        allowed,
                        *registry,
                        c,
                    )
                    &&& final(audits)@.len() == old(audits)@.len() + 1
                    &&& final(audits)@.drop_last() == old(audits)@
                    &&& audit_of(final(audits)@.last()) == settled_audit(
                        old(self).key_of(),
                        allowed,
                        *registry,
                        c,
                    )
                    &&& metrics_of(final(metrics)@) == metrics_of(old(metrics)@) + settled_metrics(
                        allowed,
                        *registry,
                        seq![c],
                    )
                    &&& final(metrics)@.len() >= old(metrics)@.len()
                    &&& final(metrics)@.subrange(0, old(metrics)@.len() as int) == old(metrics)@
                }
                &&& r matches Some((name, _)) ==> {
                    &&& name@ == c.name
                    &&& final(self).transcript() == old(self).transcript()
                    &&& final(audits)@ == old(audits)@
                    &&& final(metrics)@ == old(metrics)@
                }
            }),
    {
        let i = self.next_call;
        let n = self.calls.len();
        assert(i < n);
        self.next_call = i + 1;
        let name = self.calls[i].name.clone();
        let ghost c = calls_view(self.calls@)[i as int];
        assert(c == self.calls@[i as int]@);
        let ghost single = seq![c];
        proof {
            lemma_settled_metrics_one(self.allowed, *registry, c);
        }
        if !ToolRegistry::is_tool_allowed(name.as_str(), &self.allowed) {
            let mut fields: Vec<(String, String)> = Vec::new();
            fields.push(pair("type", text("tool_blocked")));
            fields.push(pair("tool", name.clone()));
            fields.push(pair("reason", text("default_deny")));
            let audit = AuditEvent {
                kind: text("security_violation"),
                session_key: self.session_key.clone(),
                fields,
            };
            assert(pairs_view(audit.fields@) =~= blocked_audit(self.session_key@, c.name).fields);
            let ghost audits_before = audits@;
            audits.push(audit);
            assert(audits@.drop_last() =~= audits_before);
            let mut t = String::from_str("Error: Tool '");
            t.append(name.as_str());
            t.append("' is not authorized by any active skill.");
            let m = Message::new("tool", self.session_key.as_str(), Role::Tool, t.as_str());
            assert(m@.metadata =~= Seq::<(Seq<char>, Seq<char>)>::empty());
            assert(t@ =~= denial_text(c.name));
            let ghost before = self.transcript();
            self.push_message(m);
            assert(self.transcript().drop_last() =~= before);
            assert(metrics_of(metrics@) =~= metrics_of(metrics@) + settled_metrics(
                self.allowed,
                *registry,
                single,
            ));
            assert(metrics@.subrange(0, metrics@.len() as int) =~= metrics@);
            return None;
        }
        let ghost metrics_before = metrics@;
        match registry.get(name.as_str()) {
            None => {
                let mut t = String::from_str("Tool not found: ");
                t.append(name.as_str());
                assert(t@ =~= settled_text(self.allowed, *registry, c));
                self.record_result(i, t, 0, audits, metrics);
                assert(metrics_of(metrics@) =~= metrics_of(metrics_before) + settled_metrics(
                    self.allowed,
                    *registry,
                    single,
                ));
                assert(metrics@.subrange(0, metrics_before.len() as int) =~= metrics_before);
                None
            },
            Some(def) => {
                proof {
                    let k = choose|k: int|
                        0 <= k < registry.definitions().len() && registry.definitions()[k] == def@;
                    assert(registry.definitions()[k].name == name@);
                }
                match parse_json(self.calls[i].arguments.as_str()) {
                    Ok(args) => Some((name, args)),
                    Err(e) => {
                        let mut t = String::from_str("Error parsing arguments: ");
                        t.append(e.as_str());
                        assert(t@ =~= settled_text(self.allowed, *registry, c));
                        self.record_result(i, t, 0, audits, metrics);
                        assert(metrics_of(metrics@) =~= metrics_of(metrics_before) + settled_metrics(
                            self.allowed,
                            *registry,
                            single,
                        ));
                        assert(metrics@.subrange(0, metrics_before.len() as int) =~= metrics_before);
                        None
                    },
                }
            },
        }
    }

    /// Settles the calls of the batch until one must run, then asks for it;
    /// once the batch is exhausted, asks for the next model call, or gives up
    /// with the step-limit notice when the limit is reached.
    fn advance(
        &mut self,
        registry: &ToolRegistry,
        audits: &mut Vec<AuditEvent>,
        metrics: &mut Vec<ToolMetric>,
    ) -> (r: TurnAction)
        requires
            old(self).well_formed(),
            old(self).phase_of() == Phase::Dispatching,
        ensures
            final(self).well_formed(),
            final(self).allowed_of() == old(self).allowed_of(),
            final(self).key_of() == old(self).key_of(),
            final(self).model_of() == old(self).model_of(),
            ({
                let cs = calls_view(old(self).batch());
                let t0 = old(self).taken() as int;
                let allowed = old(self).allowed_of();
                let k = first_runnable(allowed, *registry, cs, t0);
                let n0 = old(self).transcript().len() as int;
                let a0 = old(audits)@.len() as int;
                let m0 = old(metrics)@.len() as int;
                &&& t0 <= k <= cs.len()
                &&& final(self).transcript().len() == n0 + (k - t0)
                &&& final(self).transcript().subrange(0, n0) == old(self).transcript()
                &&& notes_of(final(self).transcript().subrange(n0, n0 + (k - t0))) == settled_notes(
                    allowed,
                    *registry,
                    cs.subrange(t0, k),
                )
                &&& final(audits)@.len() == a0 + (k - t0)
                &&& final(audits)@.subrange(0, a0) == old(audits)@
                &&& audits_of(final(audits)@.subrange(a0, a0 + (k - t0))) == settled_audits(
                    old(self).key_of(),
                    allowed,
                    *registry,
                    cs.subrange(t0, k),
                )
                &&& final(metrics)@.len() >= m0
                &&& final(metrics)@.subrange(0, m0) == old(metrics)@
                &&& metrics_of(final(metrics)@.subrange(m0, final(metrics)@.len() as int))
                    == settled_metrics(allowed, *registry, cs.subrange(t0, k))
                &&& k < cs.len() ==> {
                    &&& r matches TurnAction::RunTool { call_id, name, .. } && call_id@ == cs[k].id
                        && name@ == cs[k].name
                    &&& final(self).phase_of() == Phase::AwaitingTool
                    &&& final(self).batch() == old(self).batch()
                    &&& final(self).taken() == k + 1
                    &&& final(self).iteration_of() == old(self).iteration_of()
                }
                &&& (k == cs.len() && old(self).iteration_of() < MAX_ITERATIONS) ==> {
                    &&& r is CallModel
                    &&& final(self).phase_of() == Phase::AwaitingModel
                    &&& final(self).iteration_of() == old(self).iteration_of() + 1
                    &&& final(self).attempt_of() == 0
                }
                &&& (k == cs.len() && old(self).iteration_of() >= MAX_ITERATIONS) ==> {
                    &&& r matches TurnAction::Fail { notice } && notice@.content == max_steps_text()
                        && notice@.role == Role::Assistant && notice@.session_key
                        == old(self).key_of()
                    &&& final(self).phase_of() == Phase::Done
                }
            }),
    {
        let ghost cs = calls_view(self.calls@);
        let ghost t0 = self.next_call as int;
        let ghost allowed = self.allowed;
        let ghost n0 = self.transcript().len() as int;
        let ghost tr0 = self.transcript();
        let ghost au0 = audits@;
        let ghost me0 = metrics@;
        let ghost a0 = audits@.len() as int;
        let ghost m0 = metrics@.len() as int;
        let ghost key = self.session_key@;
        proof {
            lemma_first_runnable(allowed, *registry, cs, t0);
        }
        assert(tr0.subrange(0, n0) =~= tr0);
        assert(au0.subrange(0, a0) =~= au0);
        assert(me0.subrange(0, m0) =~= me0);
        assert(notes_of(tr0.subrange(n0, n0)) =~= settled_notes(allowed, *registry, cs.subrange(t0, t0)));
        assert(audits_of(au0.subrange(a0, a0)) =~= settled_audits(key, allowed, *registry, cs.subrange(t0, t0)));
        assert(metrics_of(me0.subrange(m0, m0)) =~= settled_metrics(allowed, *registry, cs.subrange(t0, t0)));
        while self.next_call < self.calls.len()
            invariant
                self.well_formed(),
                self.phase == Phase::Dispatching,
                self.allowed == allowed,
                self.session_key@ == key,
                self.model@ == old(self).model@,
                self.iteration == old(self).iteration,
                self.calls@ == old(self).calls@,
                allowed == old(self).allowed,
                key == old(self).session_key@,
                cs == calls_view(old(self).calls@),
                cs == calls_view(self.calls@),
                cs.len() == self.calls@.len(),
                t0 == old(self).next_call,
                tr0 == old(self).transcript(),
                n0 == tr0.len(),
                au0 == old(audits)@,
                a0 == au0.len(),
                me0 == old(metrics)@,
                m0 == me0.len(),
                t0 <= self.next_call <= cs.len(),
                first_runnable(allowed, *registry, cs, t0) == first_runnable(
                    allowed,
                    *registry,
                    cs,
                    self.next_call as int,
                ),
                self.transcript().len() == n0 + (self.next_call - t0),
                self.transcript().subrange(0, n0) == tr0,
                notes_of(self.transcript().subrange(n0, self.transcript().len() as int))
                    == settled_notes(allowed, *registry, cs.subrange(t0, self.next_call as int)),
                audits@.len() == a0 + (self.next_call - t0),
                audits@.subrange(0, a0) == au0,
                audits_of(audits@.subrange(a0, audits@.len() as int)) == settled_audits(
                    key,
                    allowed,
                    *registry,
                    cs.subrange(t0, self.next_call as int),
                ),
                metrics@.len() >= m0,
                metrics@.subrange(0, m0) == me0,
                metrics_of(metrics@.subrange(m0, metrics@.len() as int)) == settled_metrics(
                    allowed,
                    *registry,
                    cs.subrange(t0, self.next_call as int),
                ),
            decreases self.calls@.len() - self.next_call,
        {
            let ghost tr = self.transcript();
            let ghost au = audits@;
            let ghost me = metrics@;
            let i = self.next_call;
            match self.settle_call(registry, audits, metrics) {
                Some((name, arguments)) => {
                    self.phase = Phase::AwaitingTool;
                    let call_id = self.calls[i].id.clone();
                    assert(cs[i as int] == self.calls@[i as int]@);
                    return TurnAction::RunTool { call_id, name, arguments };
                },
                None => {
                    let ghost c = cs[i as int];
                    let ghost next = cs.subrange(t0, i + 1);
                    assert(next.drop_last() =~= cs.subrange(t0, i as int));
                    assert(next.last() == c);
                    assert(first_runnable(allowed, *registry, cs, i as int) == first_runnable(
                        allowed,
                        *registry,
                        cs,
                        i + 1,
                    ));
                    let ghost t = self.transcript();
                    assert(t.subrange(0, n0) =~= tr.subrange(0, n0));
                    assert(t.subrange(n0, t.len() as int) =~= tr.subrange(n0, tr.len() as int).push(
                        t.last(),
                    ));
                    let ghost pt = tr.subrange(n0, tr.len() as int);
                    assert(notes_of(pt.push(t.last())) =~= notes_of(pt).push(note_of(t.last())));
                    assert(settled_notes(allowed, *registry, next) =~= settled_notes(
                        allowed,
                        *registry,
                        cs.subrange(t0, i as int),
                    ).push(settled_note(allowed, *registry, c)));
                    assert(notes_of(t.subrange(n0, t.len() as int)) =~= settled_notes(
                        allowed,
                        *registry,
                        next,
                    ));
                    assert(audits@.subrange(0, a0) =~= au.subrange(0, a0));
                    assert(audits@.subrange(a0, audits@.len() as int) =~= au.subrange(
                        a0,
                        au.len() as int,
                    ).push(audits@.last()));
                    let ghost pa = au.subrange(a0, au.len() as int);
                    assert(audits_of(pa.push(audits@.last())) =~= audits_of(pa).push(
                        audit_of(audits@.last()),
                    ));
                    assert(settled_audits(key, allowed, *registry, next) =~= settled_audits(
                        key,
                        allowed,
                        *registry,
                        cs.subrange(t0, i as int),
                    ).push(settled_audit(key, allowed, *registry, c)));
                    assert(audits_of(audits@.subrange(a0, audits@.len() as int)) =~= settled_audits(
                        key,
                        allowed,
                        *registry,
                        next,
                    ));
                    assert(metrics@.subrange(0, me.len() as int) == me);
                    assert(metrics@.subrange(0, m0) =~= me.subrange(0, m0));
                    assert(metrics@.subrange(m0, metrics@.len() as int) =~= me.subrange(
                        m0,
                        me.len() as int,
                    ) + metrics@.subrange(me.len() as int, metrics@.len() as int));
                    let ghost sm = settled_metrics(allowed, *registry, seq![c]);
                    proof {
                        lemma_settled_metrics_one(allowed, *registry, c);
                    }
                    let ghost tail = metrics@.subrange(me.len() as int, metrics@.len() as int);
                    assert(metrics_of(metrics@).len() == metrics_of(me).len() + sm.len());
                    assert forall|j: int| 0 <= j < sm.len() implies metrics_of(tail)[j] == sm[j] by {
                        assert(metrics_of(metrics@)[me.len() + j] == sm[j]);
                        assert(tail[j] == metrics@[me.len() + j]);
                    }
                    assert(metrics_of(tail) =~= sm);
                    assert(settled_metrics(allowed, *registry, next) =~= settled_metrics(
                        allowed,
                        *registry,
                        cs.subrange(t0, i as int),
                    ) + sm);
                    assert(metrics_of(metrics@.subrange(m0, metrics@.len() as int)) =~= metrics_of(
                        me.subrange(m0, me.len() as int),
                    ) + metrics_of(tail));
                    assert(metrics_of(metrics@.subrange(m0, metrics@.len() as int)) =~= settled_metrics(
                        allowed,
                        *registry,
                        next,
                    ));
                },
            }
        }
        if self.iteration >= MAX_ITERATIONS {
            self.phase = Phase::Done;
            let mut t = String::from_str(
                "\u{26a0}\u{fe0f} I reached the maximum number of processing steps (",
            );
            let limit = decimal_string(MAX_ITERATIONS as u64);
            t.append(limit.as_str());
            t.append("). My last response may be incomplete. Please try rephrasing your request.");
            assert(t@ =~= max_steps_text());
            return TurnAction::Fail { notice: self.notice(t) };
        }
        self.iteration = self.iteration + 1;
        self.attempt = 0;
        self.calls = Vec::new();
        self.next_call = 0;
        self.phase = Phase::AwaitingModel;
        TurnAction::CallModel
    }

    /// Takes the model's reply. A reply without tool calls is the final
    /// answer. Otherwise the reply is kept with its calls, and the calls are
    /// taken up in the order given: each one that cannot run is answered by
    /// one `Tool` message, and the first that can is asked to run; with none
    /// left, the model is called again, or the turn ends at the step limit.
    pub fn on_model_reply(&mut self, response: GenerationResponse, registry: &ToolRegistry) -> (r:
        Step)
        requires
            old(self).well_formed(),
            old(self).phase_of() == Phase::AwaitingModel,
        ensures
            final(self).well_formed(),
            final(self).allowed_of() == old(self).allowed_of(),
            final(self).key_of() == old(self).key_of(),
            ({
                let cs = calls_view(response.tool_calls@);
                let allowed = old(self).allowed_of();
                let k = first_runnable(allowed, *registry, cs, 0);
                let n0 = old(self).transcript().len() as int;
                let tr = final(self).transcript();
                &&& 0 <= k <= cs.len()
                &&& tr.len() == n0 + 1 + k
                &&& tr.subrange(0, n0) == old(self).transcript()
                &&& note_of(tr[n0]) == (Note {
                    role: Role::Assistant,
                    content: response.content@,
                    metadata: if cs.len() > 0 {
                        seq![("tool_calls_json"@, calls_json(cs))]
                    } else {
                        seq![]
                    },
                })
                &&& tr[n0].session_key == old(self).key_of()
                &&& notes_of(tr.subrange(n0 + 1, tr.len() as int)) == settled_notes(
                    allowed,
                    *registry,
                    cs.subrange(0, k),
                )
                &&& audits_of(r.audits@) == usage_audits(
                    old(self).key_of(),
                    old(self).model_of(),
                    response.usage,
                    old(self).iteration_of(),
                ) + settled_audits(old(self).key_of(), allowed, *registry, cs.subrange(0, k))
                &&& metrics_of(r.metrics@) == settled_metrics(allowed, *registry, cs.subrange(0, k))
                &&& cs.len() == 0 ==> {
                    &&& r.action matches TurnAction::Finish { reply } && reply@.content
                        == response.content@ && reply@.role == Role::Assistant
                        && reply@.session_key == old(self).key_of()
                    &&& final(self).phase_of() == Phase::Done
                }
                &&& (cs.len() > 0 && k < cs.len()) ==> {
                    &&& r.action matches TurnAction::RunTool { call_id, name, .. } && call_id@
                        == cs[k].id && name@ == cs[k].name
                    &&& final(self).phase_of() == Phase::AwaitingTool
                    &&& final(self).batch() == response.tool_calls@
                    &&& final(self).taken() == k + 1
                    &&& final(self).iteration_of() == old(self).iteration_of()
                }
                &&& (cs.len() > 0 && k == cs.len() && old(self).iteration_of() < MAX_ITERATIONS)
                    ==> {
                    &&& r.action is CallModel
                    &&& final(self).phase_of() == Phase::AwaitingModel
                    &&& final(self).iteration_of() == old(self).iteration_of() + 1
                }
                &&& (cs.len() > 0 && k == cs.len() && old(self).iteration_of() >= MAX_ITERATIONS)
                    ==> {
                    &&& r.action matches TurnAction::Fail { notice } && notice@.content
                        == max_steps_text() && notice@.role == Role::Assistant
                        && notice@.session_key == old(self).key_of()
                    &&& final(self).phase_of() == Phase::Done
                }
            }),
    {
        let mut audits: Vec<AuditEvent> = Vec::new();
        let mut metrics: Vec<ToolMetric> = Vec::new();
        let ghost key = self.session_key@;
        let ghost cs = calls_view(response.tool_calls@);
        self.attempt = 0;
        if let Some(usage) = response.usage {
            let mut fields: Vec<(String, String)> = Vec::new();
            fields.push(pair("model", self.model.clone()));
            fields.push(pair("input_tokens", decimal_string(usage.input_tokens as u64)));
            fields.push(pair("output_tokens", decimal_string(usage.output_tokens as u64)));
            fields.push(pair("iteration", decimal_string(self.iteration as u64)));
            let audit = AuditEvent {
                kind: text("llm_completion"),
                session_key: self.session_key.clone(),
                fields,
            };
            assert(pairs_view(audit.fields@) =~= usage_audits(
                key,
                self.model@,
                response.usage,
                self.iteration as nat,
            )[0].fields);
            audits.push(audit);
        }
        let ghost ua = audits@;
        assert(audits_of(ua) =~= usage_audits(key, self.model@, response.usage, self.iteration as nat));
        let mut assistant = Message::new(
            "agent",
            self.session_key.as_str(),
            Role::Assistant,
            response.content.as_str(),
        );
        let has_calls = response.tool_calls.len() > 0;
        if has_calls {
            let encoded = encode_tool_calls(&response.tool_calls);
            assistant.annotate("tool_calls_json", encoded);
        }
        assert(has_calls == (cs.len() > 0));
        assert(assistant@.metadata =~= if cs.len() > 0 {
            seq![("tool_calls_json"@, calls_json(cs))]
        } else {
            Seq::<(Seq<char>, Seq<char>)>::empty()
        });
        let ghost assistant_view = assistant@;
        let ghost before = self.transcript();
        self.push_message(assistant);
        if !has_calls {
            self.phase = Phase::Done;
            let reply = Message::new(
                "agent",
                self.session_key.as_str(),
                Role::Assistant,
                response.content.as_str(),
            );
            assert(self.transcript().subrange(0, before.len() as int) =~= before);
            assert(self.transcript().subrange(before.len() as int + 1, before.len() as int + 1) =~= Seq::<
                MessageView,
            >::empty());
            assert(notes_of(Seq::<MessageView>::empty()) =~= settled_notes(
                self.allowed,
                *registry,
                cs.subrange(0, 0),
            ));
            assert(settled_audits(key, self.allowed, *registry, cs.subrange(0, 0)) =~= Seq::<
                AuditView,
            >::empty());
            assert(audits_of(audits@) =~= audits_of(ua) + Seq::<AuditView>::empty());
            assert(metrics_of(metrics@) =~= Seq::<MetricView>::empty());
            return Step { audits, metrics, action: TurnAction::Finish { reply } };
        }
        self.calls = response.tool_calls;
        self.next_call = 0;
        self.phase = Phase::Dispatching;
        let ghost mid = self.transcript();
        let ghost ua_len = ua.len() as int;
        assert(mid.len() == before.len() + 1);
        let action = self.advance(registry, &mut audits, &mut metrics);
        proof {
            let tr = self.transcript();
            assert(tr.subrange(0, mid.len() as int) == mid);
            assert(tr[before.len() as int] == mid[before.len() as int]);
            assert(tr.subrange(0, before.len() as int) =~= mid.subrange(0, before.len() as int));
            assert(mid.subrange(0, before.len() as int) =~= before);
            assert(audits@ =~= ua + audits@.subrange(ua_len, audits@.len() as int));
            assert(audits_of(audits@) =~= audits_of(ua) + audits_of(
                audits@.subrange(ua_len, audits@.len() as int),
            ));
            assert(metrics@ =~= metrics@.subrange(0, metrics@.len() as int));
        }
        Step { audits, metrics, action }
    }

    /// Takes a failed model call: the call is attempted again after a
    /// doubling wait, up to `LLM_RETRIES` attempts in all; then the turn
    /// fails with a notice carrying the last error.
    pub fn on_model_failure(&mut self, error: &str) -> (r: Step)
        requires
            old(self).well_formed(),
            old(self).phase_of() == Phase::AwaitingModel,
        ensures
            final(self).well_formed(),
            final(self).transcript() == old(self).transcript(),
            final(self).iteration_of() == old(self).iteration_of(),
            final(self).key_of() == old(self).key_of(),
            r.audits@.len() == 0,
            r.metrics@.len() == 0,
            old(self).attempt_of() + 1 < LLM_RETRIES ==> {
                &&& r.action matches TurnAction::Wait { delay_ms } && delay_ms == retry_delay_ms(
                    old(self).attempt_of(),
                )
                &&& final(self).phase_of() == Phase::AwaitingRetry
                &&& final(self).attempt_of() == old(self).attempt_of() + 1
            },
            old(self).attempt_of() + 1 >= LLM_RETRIES ==> {
                &&& r.action matches TurnAction::Fail { notice } && notice@.content
                    == provider_failure_text(error@) && notice@.role == Role::Assistant
                    && notice@.session_key == old(self).key_of()
                &&& final(self).phase_of() == Phase::Done
            },
    {
        let audits: Vec<AuditEvent> = Vec::new();
        let metrics: Vec<ToolMetric> = Vec::new();
        if let Some(delay) = retry_delay(self.attempt) {
            self.attempt = self.attempt + 1;
            self.phase = Phase::AwaitingRetry;
            return Step { audits, metrics, action: TurnAction::Wait { delay_ms: delay } };
        }
        self.phase = Phase::Done;
        let mut t = String::from_str(
            "\u{26a0}\u{fe0f} I encountered an error communicating with the AI provider: ",
        );
        t.append(error);
        Step { audits, metrics, action: TurnAction::Fail { notice: self.notice(t) } }
    }

    /// The wait is over: the model is called again.
    pub fn on_retry_ready(&mut self) -> (r: TurnAction)
        requires
            old(self).well_formed(),
            old(self).phase_of() == Phase::AwaitingRetry,
        ensures
            final(self).well_formed(),
            final(self).phase_of() == Phase::AwaitingModel,
            final(self).transcript() == old(self).transcript(),
            final(self).iteration_of() == old(self).iteration_of(),
            final(self).attempt_of() == old(self).attempt_of(),
            r is CallModel,
    {
        self.phase = Phase::AwaitingModel;
        TurnAction::CallModel
    }

    /// Takes the outcome of the tool that was asked to run, records it as a
    /// `Tool` message tied to the call's id, and goes on with the rest of the
    /// batch as `on_model_reply` does.
    pub fn on_tool_finished(
        &mut self,
        output: Result<String, ToolError>,
        duration_ms: u64,
        registry: &ToolRegistry,
    ) -> (r: Step)
        requires
            old(self).well_formed(),
            old(self).phase_of() == Phase::AwaitingTool,
        ensures
            final(self).well_formed(),
            final(self).allowed_of() == old(self).allowed_of(),
            final(self).key_of() == old(self).key_of(),
            ({
                let cs = calls_view(old(self).batch());
                let t = old(self).taken() as int;
                let done = cs[t - 1];
                let allowed = old(self).allowed_of();
                let k = first_runnable(allowed, *registry, cs, t);
                let n0 = old(self).transcript().len() as int;
                let tr = final(self).transcript();
                &&& t <= k <= cs.len()
                &&& tr.len() == n0 + 1 + (k - t)
                &&& tr.subrange(0, n0) == old(self).transcript()
                &&& note_of(tr[n0]) == (Note {
                    role: Role::Tool,
                    content: result_text(output),
                    metadata: seq![("tool_call_id"@, done.id)],
                })
                &&& notes_of(tr.subrange(n0 + 1, tr.len() as int)) == settled_notes(
                    allowed,
                    *registry,
                    cs.subrange(t, k),
                )
                &&& audits_of(r.audits@) == seq![
                    exec_audit(
                        old(self).key_of(),
                        done.name,
                        done.arguments,
                        result_text(output),
                        duration_ms as nat,
                    ),
                ] + settled_audits(old(self).key_of(), allowed, *registry, cs.subrange(t, k))
                &&& metrics_of(r.metrics@) == seq![
                    MetricView {
                        tool: done.name,
                        duration_ms: duration_ms as nat,
                        success: result_ok(result_text(output)),
                    },
                ] + settled_metrics(allowed, *registry, cs.subrange(t, k))
                &&& k < cs.len() ==> {
                    &&& r.action matches TurnAction::RunTool { call_id, name, .. } && call_id@
                        == cs[k].id && name@ == cs[k].name
                    &&& final(self).phase_of() == Phase::AwaitingTool
                    &&& final(self).batch() == old(self).batch()
                    &&& final(self).taken() == k + 1
                    &&& final(self).iteration_of() == old(self).iteration_of()
                }
                &&& (k == cs.len() && old(self).iteration_of() < MAX_ITERATIONS) ==> {
                    &&& r.action is CallModel
                    &&& final(self).phase_of() == Phase::AwaitingModel
                    &&& final(self).iteration_of() == old(self).iteration_of() + 1
                }
                &&& (k == cs.len() && old(self).iteration_of() >= MAX_ITERATIONS) ==> {
                    &&& r.action matches TurnAction::Fail { notice } && notice@.content
                        == max_steps_text() && notice@.role == Role::Assistant
                        && notice@.session_key == old(self).key_of()
                    &&& final(self).phase_of() == Phase::Done
                }
            }),
    {
        let mut audits: Vec<AuditEvent> = Vec::new();
        let mut metrics: Vec<ToolMetric> = Vec::new();
        let result = match output {
            Ok(s) => s,
            Err(e) => {
                let mut t = String::from_str("Error executing tool: ");
                let d = e.describe();
                t.append(d.as_str());
                t
            },
        };
        let ghost before = self.transcript();
        let j = self.next_call - 1;
        assert(calls_view(self.calls@)[j as int] == self.calls@[j as int]@);
        self.record_result(j, result, duration_ms, &mut audits, &mut metrics);
        self.phase = Phase::Dispatching;
        let ghost mid = self.transcript();
        let ghost a1 = audits@;
        let ghost m1 = metrics@;
        let action = self.advance(registry, &mut audits, &mut metrics);
        proof {
            let tr = self.transcript();
            assert(tr.subrange(0, mid.len() as int) == mid);
            assert(tr[before.len() as int] == mid[before.len() as int]);
            assert(tr.subrange(0, before.len() as int) =~= mid.subrange(0, before.len() as int));
            assert(mid.subrange(0, before.len() as int) =~= mid.drop_last());
            assert(audits@ =~= a1 + audits@.subrange(1, audits@.len() as int));
            assert(audits_of(a1) =~= seq![audit_of(a1[0])]);
            assert(audits_of(audits@) =~= audits_of(a1) + audits_of(
                audits@.subrange(1, audits@.len() as int),
            ));
            assert(metrics@ =~= m1 + metrics@.subrange(1, metrics@.len() as int));
            assert(metrics_of(m1) =~= seq![metric_of(m1[0])]);
            assert(metrics_of(metrics@) =~= metrics_of(m1) + metrics_of(
                metrics@.subrange(1, metrics@.len() as int),
            ));
        }
        Step { audits, metrics, action }
    }
}

/// A turn never makes more than `MAX_ITERATIONS` model calls for its inbound
/// message: the count of calls made, the current one included, stays within
/// bounds in every state the methods reach, since they ask for a further call
/// only below the bound (raising the count by one) and end the turn with a
/// single notice at it.
pub proof fn lemma_model_calls_bounded(t: Turn)
    requires
        t.well_formed(),
    ensures
        1 <= t.iteration_of() <= MAX_ITERATIONS,
{
}

} // verus!
