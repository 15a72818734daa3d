//! Carrying out a resolved command, one daemon request at a time.
//!
//! The engine never talks to the daemon. It says which request goes out
//! next, its caller sends it and reports what came back, and the engine says
//! what follows: the next request, or the end of the run. A macro is a run
//! of templated requests that stops at the first one that is not answered
//! with success; what was sent before stays sent. A daemon command is a run
//! of one request, an envelope that names the extension and the command.

use vstd::prelude::*;
use vstd::string::*;
use crate::bindings::Bindings;
use crate::bindings::BoundArgs;
use crate::interpolate::interpolate_value;
use crate::interpolate::interpolated;
use crate::json::field_of;
use crate::json::fields_view;
use crate::json::lemma_object_view;
use crate::json::Json;
use crate::json::JsonValue;
use crate::manifest::ExtensionCommand;
use crate::manifest::ExtensionManifest;
use crate::manifest::HandlerKind;
use crate::registry::ExtensionError;
use crate::registry::ExtensionErrorView;
use crate::registry::ExtensionRegistry;
use crate::registry::Response;
use crate::registry::ResponseView;
use crate::resolve::build_usage;
use crate::resolve::resolve_invocation;
use crate::resolve::resolved;
use crate::resolve::usage_text;
use crate::resolve::Token;

verus! {

/// What the engine asks of its caller.
#[derive(Debug, PartialEq)]
pub enum Dispatch {
    /// Send `request` to the daemon, then report the outcome together with
    /// `step` to [`resume_extension_command`].
    Send { step: usize, request: JsonValue },
    /// The run is over; this is how it ended.
    Done { result: Result<Response, ExtensionError> },
}

/// A move of the engine as a mathematical value.
pub enum DispatchView {
    Send { step: int, request: Json },
    Done { result: Result<ResponseView, ExtensionErrorView> },
}

/// The outcome of a request as its sender reports it: the daemon's answer,
/// or what the transport said when it failed.
pub type Reply = Result<ResponseView, Seq<char>>;

/// The model of a reported outcome.
pub open spec fn reply_view(reply: Result<Response, String>) -> Reply {
    match reply {
        Ok(response) => Ok(response@),
        Err(message) => Err(message@),
    }
}

impl View for Dispatch {
    type V = DispatchView;

    open spec fn view(&self) -> DispatchView {
        match self {
            Dispatch::Send { step, request } => DispatchView::Send {
                step: *step as int,
                request: request@,
            },
            Dispatch::Done { result } => DispatchView::Done {
                result: match result {
                    Ok(response) => Ok(response@),
                    Err(e) => Err(e@),
                },
            },
        }
    }
}

/// A request with an `id`: an object that has none gets `id` as its last
/// field; an object that has one, and anything that is no object, stays as
/// it is.
pub open spec fn with_id(v: Json, id: Seq<char>) -> Json {
    match v {
        Json::Object(fields) => if field_of(fields, "id"@) is Some {
            v
        } else {
            Json::Object(fields.push(("id"@, Json::String(id))))
        },
        _ => v,
    }
}

/// The failure of a command whose definition cannot be carried out.
pub open spec fn invalid_invocation(
    message: Seq<char>,
    ext: ExtensionManifest,
    cmd: ExtensionCommand,
) -> DispatchView {
    DispatchView::Done {
        result: Err(
            ExtensionErrorView::InvalidInvocation { message: message, usage: usage_text(ext, cmd) },
        ),
    }
}

/// The move for step `i` of a macro: the template is interpolated and given
/// an id; the outcome goes out if it is an object with an `action`, and
/// ends the run with a failure if it is not.
pub open spec fn macro_step(
    ext: ExtensionManifest,
    cmd: ExtensionCommand,
    args: Bindings,
    template: Json,
    i: int,
    id: Seq<char>,
) -> DispatchView {
    let rendered = with_id(interpolated(template, args), id);
    if rendered.field("action"@) is Some {
        DispatchView::Send { step: i, request: rendered }
    } else {
        invalid_invocation("Macro step missing action field"@, ext, cmd)
    }
}

/// The one request of a daemon command.
pub open spec fn envelope(
    ext: ExtensionManifest,
    cmd: ExtensionCommand,
    args: Bindings,
    id: Seq<char>,
) -> Json {
    Json::Object(
        seq![
            ("id"@, Json::String(id)),
            ("action"@, Json::String("extension"@)),
            ("extension"@, Json::String(ext.name@)),
            ("command"@, Json::String(cmd.name@)),
            ("args"@, Json::Object(args)),
        ],
    )
}

/// The steps of a macro; none where the handler declares none.
pub open spec fn macro_steps(cmd: ExtensionCommand) -> Seq<JsonValue> {
    match cmd.handler.steps {
        Some(steps) => steps@,
        None => Seq::empty(),
    }
}

/// The first move of a run: the first step of a macro, or the envelope of
/// a daemon command. A macro without steps and a handler of any other type
/// end the run at once, as an invalid invocation.
pub open spec fn started(
    ext: ExtensionManifest,
    cmd: ExtensionCommand,
    args: Bindings,
    id: Seq<char>,
) -> DispatchView {
    match cmd.handler.kind() {
        HandlerKind::Macro => if macro_steps(cmd).len() == 0 {
            invalid_invocation("Macro handler missing steps"@, ext, cmd)
        } else {
            macro_step(ext, cmd, args, macro_steps(cmd)[0]@, 0, id)
        },
        HandlerKind::Daemon => DispatchView::Send { step: 0, request: envelope(ext, cmd, args, id) },
        HandlerKind::Unsupported => invalid_invocation(
            "Unsupported handler type: "@ + cmd.handler.handler_type@,
            ext,
            cmd,
        ),
    }
}

/// The move that follows the outcome `reply` of the request of step
/// `step`: a transport failure and an unsuccessful answer end the run at
/// once; a successful answer is followed by the next step of a macro, and
/// is the result of the run where no step is left.
pub open spec fn resumed(
    ext: ExtensionManifest,
    cmd: ExtensionCommand,
    args: Bindings,
    step: int,
    reply: Reply,
    id: Seq<char>,
) -> DispatchView {
    match reply {
        Err(message) => DispatchView::Done {
            result: Err(ExtensionErrorView::Io { message: message }),
        },
        Ok(response) => if !response.success {
            DispatchView::Done {
                result: Err(ExtensionErrorView::CommandFailed { response: response }),
            }
        } else if cmd.handler.kind() == HandlerKind::Macro && 0 <= step + 1 < macro_steps(
            cmd,
        ).len() {
            macro_step(ext, cmd, args, macro_steps(cmd)[step + 1]@, step + 1, id)
        } else {
            DispatchView::Done { result: Ok(response) }
        },
    }
}

/// Gives a request object an `id` where it has none.
pub fn ensure_command_id(value: &mut JsonValue, id: &str)
    ensures
        final(value)@ == with_id(old(value)@, id@),
{
    let has_id = value.get("id").is_some();
    match value {
        JsonValue::Object(fields) => {
            if !has_id {
                proof {
                    lemma_object_view(*fields);
                }
                let ghost before = fields@;
                fields.push((String::from_str("id"), JsonValue::String(String::from_str(id))));
                proof {
                    lemma_object_view(*fields);
                    assert(fields_view(fields@) =~= fields_view(before).push(
                        ("id"@, Json::String(id@)),
                    ));
                }
            }
        },
        _ => {},
    }
}

/// The failure of a command whose definition cannot be carried out.
fn fail_invocation(message: String, ext: &ExtensionManifest, cmd: &ExtensionCommand) -> (r:
    Dispatch)
    ensures
        r@ == invalid_invocation(message@, *ext, *cmd),
{
    Dispatch::Done {
        result: Err(ExtensionError::InvalidInvocation { message, usage: build_usage(ext, cmd) }),
    }
}

/// Prepares step `i` of a macro from its template.
fn prepare_step(
    ext: &ExtensionManifest,
    cmd: &ExtensionCommand,
    args: &BoundArgs,
    template: &JsonValue,
    i: usize,
    fresh_id: &str,
) -> (r: Dispatch)
    ensures
        r@ == macro_step(*ext, *cmd, args@, template@, i as int, fresh_id@),
{
    let mut rendered = interpolate_value(template, args);
    ensure_command_id(&mut rendered, fresh_id);
    if rendered.get("action").is_some() {
        Dispatch::Send { step: i, request: rendered }
    } else {
        fail_invocation(String::from_str("Macro step missing action field"), ext, cmd)
    }
}

/// The first move of the run of `cmd` with the arguments `args`.
/// `fresh_id` is an id that no other request bears.
pub fn execute_extension_command(
    ext: &ExtensionManifest,
    cmd: &ExtensionCommand,
    args: &BoundArgs,
    fresh_id: &str,
) -> (r: Dispatch)
    ensures
        r@ == started(*ext, *cmd, args@, fresh_id@),
{
    match cmd.handler.handler_kind() {
        HandlerKind::Macro => {
            match &cmd.handler.steps {
                Some(steps) => {
                    if steps.len() == 0 {
                        fail_invocation(String::from_str("Macro handler missing steps"), ext, cmd)
                    } else {
                        prepare_step(ext, cmd, args, &steps[0], 0, fresh_id)
                    }
                },
                None => fail_invocation(String::from_str("Macro handler missing steps"), ext, cmd),
            }
        },
        HandlerKind::Daemon => {
            let mut fields: Vec<(String, JsonValue)> = Vec::new();
            fields.push((String::from_str("id"), JsonValue::String(String::from_str(fresh_id))));
            fields.push(
                (String::from_str("action"), JsonValue::String(String::from_str("extension"))),
            );
            fields.push((String::from_str("extension"), JsonValue::String(ext.name.clone())));
            fields.push((String::from_str("command"), JsonValue::String(cmd.name.clone())));
            let bound = args.to_fields();
            proof {
                lemma_object_view(bound);
            }
            fields.push((String::from_str("args"), JsonValue::Object(bound)));
            proof {
                lemma_object_view(fields);
                assert(fields_view(fields@) =~= envelope(
                    *ext,
                    *cmd,
                    args@,
                    fresh_id@,
                )->Object_0);
            }
            Dispatch::Send { step: 0, request: JsonValue::Object(fields) }
        },
        HandlerKind::Unsupported => {
            let mut message = String::from_str("Unsupported handler type: ");
            message.append(cmd.handler.handler_type.as_str());
            fail_invocation(message, ext, cmd)
        },
    }
}

/// The move that follows once the request of step `step` was sent and
/// `reply` came back. `fresh_id` is an id that no other request bears.
pub fn resume_extension_command(
    ext: &ExtensionManifest,
    cmd: &ExtensionCommand,
    args: &BoundArgs,
    step: usize,
    reply: Result<Response, String>,
    fresh_id: &str,
) -> (r: Dispatch)
    ensures
        r@ == resumed(*ext, *cmd, args@, step as int, reply_view(reply), fresh_id@),
{
    match reply {
        Err(message) => Dispatch::Done { result: Err(ExtensionError::Io { message }) },
        Ok(response) => {
            if !response.success {
                return Dispatch::Done { result: Err(ExtensionError::CommandFailed { response }) };
            }
            match cmd.handler.handler_kind() {
                HandlerKind::Macro => {
                    match &cmd.handler.steps {
                        Some(steps) => {
                            if steps.len() > 0 && step < steps.len() - 1 {
                                prepare_step(ext, cmd, args, &steps[step + 1], step + 1, fresh_id)
                            } else {
                                Dispatch::Done { result: Ok(response) }
                            }
                        },
                        None => Dispatch::Done { result: Ok(response) },
                    }
                },
                _ => Dispatch::Done { result: Ok(response) },
            }
        },
    }
}

/// A command on its way: what was resolved, and the engine's first move.
#[derive(Debug, PartialEq)]
pub struct Execution<'a> {
    pub ext: &'a ExtensionManifest,
    pub cmd: &'a ExtensionCommand,
    pub args: BoundArgs,
    pub next: Dispatch,
}

/// Resolves the words `args` and makes the first move of the command they
/// name. Nothing comes back where the words are no extension invocation; a
/// failure comes back where they are one that cannot be resolved. A command
/// that resolves but cannot be run is on its way all the same: its first
/// move ends the run with the failure.
pub fn try_execute_extension<'a>(
    registry: &'a ExtensionRegistry,
    args: &[Token],
    fresh_id: &str,
) -> (r: Result<Option<Execution<'a>>, ExtensionError>)
    ensures
        match r {
            Ok(Some(x)) => resolved(registry@, args@) == Ok::<
                Option<(ExtensionManifest, ExtensionCommand, Bindings)>,
                ExtensionErrorView,
            >(Some((*x.ext, *x.cmd, x.args@))) && x.next@ == started(
                *x.ext,
                *x.cmd,
                x.args@,
                fresh_id@,
            ),
            Ok(None) => resolved(registry@, args@) == Ok::<
                Option<(ExtensionManifest, ExtensionCommand, Bindings)>,
                ExtensionErrorView,
            >(None),
            Err(e) => resolved(registry@, args@) == Err::<
                Option<(ExtensionManifest, ExtensionCommand, Bindings)>,
                ExtensionErrorView,
            >(e@),
        },
{
    match resolve_invocation(registry, args) {
        Ok(Some(found)) => {
            let (ext, cmd, bound) = found;
            let next = execute_extension_command(ext, cmd, &bound, fresh_id);
            Ok(Some(Execution { ext, cmd, args: bound, next }))
        },
        Ok(None) => Ok(None),
        Err(e) => Err(e),
    }
}

/// What a run comes to: the requests that went out, in order, and how the
/// run ended, if it did.
pub struct Run {
    pub sent: Seq<Json>,
    pub result: Option<Result<ResponseView, ExtensionErrorView>>,
}

/// The run that starts with the move `state` against a daemon whose
/// outcomes are `replies`, one for each request in turn. The request of step
/// `i` gets the id `id_of(i)` where it needs one. The run has no result
/// where the outcomes give out before it ends.
pub open spec fn run(
    ext: ExtensionManifest,
    cmd: ExtensionCommand,
    args: Bindings,
    state: DispatchView,
    replies: Seq<Reply>,
    id_of: spec_fn(int) -> Seq<char>,
) -> Run
    decreases replies.len(),
{
    match state {
        DispatchView::Done { result } => Run { sent: Seq::empty(), result: Some(result) },
        DispatchView::Send { step, request } => if replies.len() == 0 {
            Run { sent: seq![request], result: None }
        } else {
            let next = resumed(ext, cmd, args, step, replies[0], id_of(step + 1));
            let rest = run(ext, cmd, args, next, replies.skip(1), id_of);
            Run { sent: seq![request] + rest.sent, result: rest.result }
        },
    }
}

/// Whether a reported outcome is an answer of success.
pub open spec fn is_success(reply: Reply) -> bool {
    match reply {
        Ok(response) => response.success,
        Err(_) => false,
    }
}

/// The failure that an outcome other than success ends the run with: the
/// transport's words, or the daemon's answer as it came.
pub open spec fn failure_of(reply: Reply) -> ExtensionErrorView {
    match reply {
        Ok(response) => ExtensionErrorView::CommandFailed { response: response },
        Err(message) => ExtensionErrorView::Io { message: message },
    }
}

/// Fail-fast: where the outcome of request `k` is no success, no request
/// after it goes out, and the run has ended. Where request `k` did go out
/// and every outcome before it was a success, the run ended with the failure
/// of that outcome: the daemon's own answer for an unsuccessful one.
pub proof fn lemma_run_fails_fast(
    ext: ExtensionManifest,
    cmd: ExtensionCommand,
    args: Bindings,
    state: DispatchView,
    replies: Seq<Reply>,
    id_of: spec_fn(int) -> Seq<char>,
    k: int,
)
    requires
        0 <= k < replies.len(),
        !is_success(replies[k]),
    ensures
        run(ext, cmd, args, state, replies, id_of).sent.len() <= k + 1,
        run(ext, cmd, args, state, replies, id_of).result is Some,
        (forall|j: int| 0 <= j < k ==> is_success(#[trigger] replies[j])) && run(
            ext,
            cmd,
            args,
            state,
            replies,
            id_of,
        ).sent.len() == k + 1 ==> run(ext, cmd, args, state, replies, id_of).result == Some(
            Err::<ResponseView, ExtensionErrorView>(failure_of(replies[k])),
        ),
    decreases k,
{
    match state {
        DispatchView::Done { result } => {},
        DispatchView::Send { step, request } => {
            let next = resumed(ext, cmd, args, step, replies[0], id_of(step + 1));
            let rest = replies.skip(1);
            if k == 0 {
                assert(next is Done);
            } else {
                assert(rest[k - 1] == replies[k]);
                lemma_run_fails_fast(ext, cmd, args, next, rest, id_of, k - 1);
                if forall|j: int| 0 <= j < k ==> is_success(#[trigger] replies[j]) {
                    assert forall|j: int| 0 <= j < k - 1 implies is_success(
                        #[trigger] rest[j],
                    ) by {
                        assert(rest[j] == replies[j + 1]);
                    }
                }
            }
        },
    }
}

/// A run ends with success only on the answer to its last request, and that
/// answer is the result. In particular a daemon command hands back the
/// daemon's answer unchanged.
pub proof fn lemma_run_succeeds_with_last_reply(
    ext: ExtensionManifest,
    cmd: ExtensionCommand,
    args: Bindings,
    state: DispatchView,
    replies: Seq<Reply>,
    id_of: spec_fn(int) -> Seq<char>,
)
    requires
        state is Send,
        run(ext, cmd, args, state, replies, id_of).result matches Some(Ok(_)),
    ensures
        ({
            let out = run(ext, cmd, args, state, replies, id_of);
            &&& 1 <= out.sent.len() <= replies.len()
            &&& replies[out.sent.len() - 1] == Ok::<ResponseView, Seq<char>>(
                out.result->0->Ok_0,
            )
            &&& forall|j: int| 0 <= j < out.sent.len() ==> is_success(#[trigger] replies[j])
        }),
    decreases replies.len(),
{
    let step = state->step;
    let next = resumed(ext, cmd, args, step, replies[0], id_of(step + 1));
    let rest = replies.skip(1);
    let tail = run(ext, cmd, args, next, rest, id_of);
    let out = run(ext, cmd, args, state, replies, id_of);
    if next is Send {
        lemma_run_succeeds_with_last_reply(ext, cmd, args, next, rest, id_of);
        assert(rest[tail.sent.len() - 1] == replies[tail.sent.len() as int]);
        assert forall|j: int| 0 <= j < out.sent.len() implies is_success(
            #[trigger] replies[j],
        ) by {
            if j > 0 {
                assert(rest[j - 1] == replies[j]);
            }
        }
    }
}

/// A daemon command is a run of one request: the envelope goes out, and
/// the run ends with the daemon's answer, unchanged, where it is a success,
/// and with the failure of the outcome where it is not.
pub proof fn lemma_daemon_run(
    ext: ExtensionManifest,
    cmd: ExtensionCommand,
    args: Bindings,
    replies: Seq<Reply>,
    id_of: spec_fn(int) -> Seq<char>,
)
    requires
        cmd.handler.kind() == HandlerKind::Daemon,
        replies.len() >= 1,
    ensures
        run(ext, cmd, args, started(ext, cmd, args, id_of(0)), replies, id_of) == (Run {
            sent: seq![envelope(ext, cmd, args, id_of(0))],
            result: Some(
                if is_success(replies[0]) {
                    Ok::<ResponseView, ExtensionErrorView>(replies[0]->Ok_0)
                } else {
                    Err::<ResponseView, ExtensionErrorView>(failure_of(replies[0]))
                },
            ),
        }),
{
    let first = started(ext, cmd, args, id_of(0));
    let next = resumed(ext, cmd, args, 0, replies[0], id_of(1));
    assert(next is Done);
    let rest = run(ext, cmd, args, next, replies.skip(1), id_of);
    assert(rest.sent =~= Seq::<Json>::empty());
    assert(run(ext, cmd, args, first, replies, id_of).sent =~= seq![
        envelope(ext, cmd, args, id_of(0)),
    ]);
}

/// The request of step `i` of a macro, as it goes out.
pub open spec fn step_request(
    cmd: ExtensionCommand,
    args: Bindings,
    i: int,
    id_of: spec_fn(int) -> Seq<char>,
) -> Json {
    with_id(interpolated(macro_steps(cmd)[i]@, args), id_of(i))
}

/// Whether every step of a macro gives a request that can go out: an
/// object with an `action`.
pub open spec fn steps_are_requests(
    cmd: ExtensionCommand,
    args: Bindings,
    id_of: spec_fn(int) -> Seq<char>,
) -> bool {
    forall|i: int|
        0 <= i < macro_steps(cmd).len() ==> (#[trigger] step_request(cmd, args, i, id_of)).field(
            "action"@,
        ) is Some
}

/// A macro whose steps are all answered with success, from step `k` on:
/// the steps go out in their order, and the answer to the last is the
/// result.
proof fn lemma_macro_run_from(
    ext: ExtensionManifest,
    cmd: ExtensionCommand,
    args: Bindings,
    replies: Seq<Reply>,
    id_of: spec_fn(int) -> Seq<char>,
    k: int,
)
    requires
        cmd.handler.kind() == HandlerKind::Macro,
        0 <= k < macro_steps(cmd).len(),
        steps_are_requests(cmd, args, id_of),
        replies.len() == macro_steps(cmd).len() - k,
        forall|i: int| 0 <= i < replies.len() ==> is_success(#[trigger] replies[i]),
    ensures
        run(
            ext,
            cmd,
            args,
            DispatchView::Send { step: k, request: step_request(cmd, args, k, id_of) },
            replies,
            id_of,
        ) == (Run {
            sent: Seq::new(replies.len(), |i: int| step_request(cmd, args, k + i, id_of)),
            result: Some(Ok::<ResponseView, ExtensionErrorView>(replies.last()->Ok_0)),
        }),
    decreases replies.len(),
{
    let n = macro_steps(cmd).len() as int;
    let state = DispatchView::Send { step: k, request: step_request(cmd, args, k, id_of) };
    let out = run(ext, cmd, args, state, replies, id_of);
    let wanted = Seq::new(replies.len(), |i: int| step_request(cmd, args, k + i, id_of));
    let next = resumed(ext, cmd, args, k, replies[0], id_of(k + 1));
    let rest = replies.skip(1);
    assert(is_success(replies[0]));
    if k + 1 < n {
        assert(step_request(cmd, args, k + 1, id_of).field("action"@) is Some);
        assert(next == DispatchView::Send {
            step: k + 1,
            request: step_request(cmd, args, k + 1, id_of),
        });
        assert forall|i: int| 0 <= i < rest.len() implies is_success(#[trigger] rest[i]) by {
            assert(rest[i] == replies[i + 1]);
        }
        lemma_macro_run_from(ext, cmd, args, rest, id_of, k + 1);
        assert(rest.last() == replies.last());
        assert(out.sent =~= wanted);
    } else {
        assert(next == DispatchView::Done {
            result: Ok::<ResponseView, ExtensionErrorView>(replies[0]->Ok_0),
        });
        assert(rest.len() == 0);
        let tail = run(ext, cmd, args, next, rest, id_of);
        assert(tail.sent =~= Seq::<Json>::empty());
        assert(tail.result == Some(Ok::<ResponseView, ExtensionErrorView>(replies[0]->Ok_0)));
        assert(out.sent =~= wanted);
    }
}

/// A macro whose steps all give requests and are all answered with
/// success: every step goes out, in the declared order, and the run ends
/// with the answer to the last step.
pub proof fn lemma_macro_run_completes(
    ext: ExtensionManifest,
    cmd: ExtensionCommand,
    args: Bindings,
    replies: Seq<Reply>,
    id_of: spec_fn(int) -> Seq<char>,
)
    requires
        cmd.handler.kind() == HandlerKind::Macro,
        macro_steps(cmd).len() > 0,
        steps_are_requests(cmd, args, id_of),
        replies.len() == macro_steps(cmd).len(),
        forall|i: int| 0 <= i < replies.len() ==> is_success(#[trigger] replies[i]),
    ensures
        run(ext, cmd, args, started(ext, cmd, args, id_of(0)), replies, id_of) == (Run {
            sent: Seq::new(replies.len(), |i: int| step_request(cmd, args, i, id_of)),
            result: Some(Ok::<ResponseView, ExtensionErrorView>(replies.last()->Ok_0)),
        }),
{
    assert(step_request(cmd, args, 0, id_of).field("action"@) is Some);
    lemma_macro_run_from(ext, cmd, args, replies, id_of, 0);
    assert(Seq::new(replies.len(), |i: int| step_request(cmd, args, 0 + i, id_of)) =~= Seq::new(
        replies.len(),
        |i: int| step_request(cmd, args, i, id_of),
    ));
}

} // verus!
