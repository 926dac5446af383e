//! The transform orchestrator: for one request or response, build the render
//! context, rewrite the body, then set, add and remove headers, collecting
//! recoverable failures and stopping at a critical one.
use vstd::prelude::*;
use vstd::utf8::*;
use crate::config::{BodyParseBehavior, LocalTransform, NameValuePair};
use crate::jinja::{self, RenderContext, RenderError, TemplateRegistry};
use crate::ops::{HostCall, Side, TransformationOps};
use crate::text;

verus! {

/// Why a transform did not complete cleanly.
#[derive(Clone, Debug)]
pub enum TransformError {
    /// A template reads variables that are no template functions while the
    /// body was not parsed as JSON; the message must be rejected.
    UndeclaredJsonVariables(Vec<String>),
    /// The body was to be parsed as JSON and is not JSON; the message must be
    /// rejected.
    BodyParse(String),
    /// Some templates failed to render; the transform went on without them.
    /// The text describes every failure.
    Rendering(String),
}

impl TransformError {
    /// The failure must reject the whole message.
    pub open spec fn is_critical_spec(&self) -> bool {
        !(self is Rendering)
    }

    /// Whether the failure must reject the whole message rather than be logged.
    pub fn is_critical(&self) -> (r: bool)
        ensures
            r == self.is_critical_spec(),
    {
        match self {
            TransformError::Rendering(_) => false,
            _ => true,
        }
    }
}

// ---------------------------------------------------------------------------
// Error aggregation

/// The combined message for `errors`, labelled with `label`.
pub open spec fn combined(label: Seq<char>, errors: Seq<Seq<char>>) -> Seq<char> {
    label + ": "@ + text::joined(errors, "; "@)
}

/// Nothing when there are no errors; otherwise one message, `msg` followed by
/// every error, separated by `"; "`.
pub fn combine_errors(msg: &str, errors: &Vec<String>) -> (r: Result<(), String>)
    ensures
        r is Ok <==> errors@.len() == 0,
        r is Err ==> r->Err_0@ == combined(msg@, jinja::views(errors@)),
{
    if errors.len() == 0 {
        return Ok(());
    }
    let mut out = msg.to_string();
    out.append(": ");
    let mut i: usize = 0;
    while i < errors.len()
        invariant
            0 < errors@.len(),
            i <= errors@.len(),
            out@ == msg@ + ": "@ + text::joined(jinja::views(errors@.subrange(0, i as int)), "; "@),
        decreases errors@.len() - i,
    {
        let ghost before = out@;
        if i > 0 {
            out.append("; ");
        }
        out.append(errors[i].as_str());
        proof {
            let prefix = jinja::views(errors@.subrange(0, i + 1));
            assert(prefix.drop_last() =~= jinja::views(errors@.subrange(0, i as int)));
            assert(prefix.last() == errors@[i as int]@);
            if i == 0 {
                assert(jinja::views(errors@.subrange(0, 0)) =~= Seq::<Seq<char>>::empty());
            }
        }
        i += 1;
    }
    assert(errors@.subrange(0, i as int) =~= errors@);
    Err(out)
}

// ---------------------------------------------------------------------------
// What the header and body rules do, given what the templates rendered to

/// The bytes of a rendered text.
pub open spec fn text_bytes(s: String) -> Seq<u8> {
    encode_utf8(s@)
}

/// The operations of the `set` entries, given what their templates rendered
/// to: an empty template, a failed render and an empty result remove the
/// header; a non-empty result sets it; an undeclared-variable failure stops.
pub open spec fn set_calls(
    side: Side,
    entries: Seq<NameValuePair>,
    outcomes: Seq<Result<String, RenderError>>,
) -> Seq<HostCall>
    decreases entries.len(),
{
    if entries.len() == 0 {
        Seq::empty()
    } else {
        let e = entries[0];
        let o = outcomes[0];
        let rest = set_calls(side, entries.drop_first(), outcomes.drop_first());
        if e.value@.len() == 0 {
            seq![HostCall::RemoveHeader(side, e.name@)] + rest
        } else if jinja::is_undeclared(o) {
            Seq::empty()
        } else if o is Ok && o->Ok_0@.len() > 0 {
            seq![HostCall::SetHeader(side, e.name@, text_bytes(o->Ok_0))] + rest
        } else {
            seq![HostCall::RemoveHeader(side, e.name@)] + rest
        }
    }
}

/// The operations of the `add` entries, given what their templates rendered
/// to: only a non-empty result adds the header; an undeclared-variable
/// failure stops.
pub open spec fn add_calls(
    side: Side,
    entries: Seq<NameValuePair>,
    outcomes: Seq<Result<String, RenderError>>,
) -> Seq<HostCall>
    decreases entries.len(),
{
    if entries.len() == 0 {
        Seq::empty()
    } else {
        let e = entries[0];
        let o = outcomes[0];
        let rest = add_calls(side, entries.drop_first(), outcomes.drop_first());
        if e.value@.len() == 0 {
            rest
        } else if jinja::is_undeclared(o) {
            Seq::empty()
        } else if o is Ok && o->Ok_0@.len() > 0 {
            seq![HostCall::AddHeader(side, e.name@, text_bytes(o->Ok_0))] + rest
        } else {
            rest
        }
    }
}

/// The names of the first undeclared-variable failure among the entries with
/// a template, if there is one.
pub open spec fn first_undeclared(
    entries: Seq<NameValuePair>,
    outcomes: Seq<Result<String, RenderError>>,
) -> Option<Seq<Seq<char>>>
    decreases entries.len(),
{
    if entries.len() == 0 {
        None
    } else if entries[0].value@.len() > 0 && jinja::is_undeclared(outcomes[0]) {
        Some(jinja::undeclared_list(outcomes[0]))
    } else {
        first_undeclared(entries.drop_first(), outcomes.drop_first())
    }
}

/// The messages of the failed renders among the entries with a template,
/// before the first undeclared-variable failure.
pub open spec fn failures(
    entries: Seq<NameValuePair>,
    outcomes: Seq<Result<String, RenderError>>,
) -> Seq<Seq<char>>
    decreases entries.len(),
{
    if entries.len() == 0 {
        Seq::empty()
    } else {
        let rest = failures(entries.drop_first(), outcomes.drop_first());
        if entries[0].value@.len() == 0 {
            rest
        } else if jinja::is_undeclared(outcomes[0]) {
            Seq::empty()
        } else if jinja::is_failed(outcomes[0]) {
            seq![jinja::failure_message(outcomes[0])] + rest
        } else {
            rest
        }
    }
}

/// The operations of the `remove` entries.
pub open spec fn remove_calls(side: Side, names: Seq<String>) -> Seq<HostCall> {
    names.map_values(|n: String| HostCall::RemoveHeader(side, n@))
}

/// The transform has a body template with text.
pub open spec fn has_body_template(t: LocalTransform) -> bool {
    t.body is Some && t.body->0.value@.len() > 0
}

/// The transform asks for the body to be parsed as JSON.
pub open spec fn parses_json(t: LocalTransform) -> bool {
    t.body is Some && t.body->0.parse_as == BodyParseBehavior::AsJson
}

/// The operations of a body rewrite, given the length of the old body and
/// what the body template rendered to: the old body is drained; a non-empty
/// result becomes the body, with its length as `content-length`; an empty
/// result or a failed render leaves no body, `content-length` 0 and no
/// `content-type`; an undeclared-variable failure stops.
pub open spec fn body_calls(side: Side, len: usize, o: Result<String, RenderError>) -> Seq<HostCall> {
    seq![HostCall::DrainBody(side, len as nat)] + if jinja::is_undeclared(o) {
        Seq::empty()
    } else if o is Ok && o->Ok_0@.len() > 0 {
        seq![
            HostCall::AppendBody(side, text_bytes(o->Ok_0)),
            HostCall::SetHeader(side, "content-length"@, text::decimal_spec(text_bytes(o->Ok_0).len())),
        ]
    } else {
        seq![
            HostCall::SetHeader(side, "content-length"@, text::decimal_spec(0)),
            HostCall::RemoveHeader(side, "content-type"@),
        ]
    }
}

/// The names of the critical failure of a transform, if it has one: the
/// first undeclared-variable failure, body first, then `set`, then `add`.
pub open spec fn critical(
    t: LocalTransform,
    bo: Result<String, RenderError>,
    so: Seq<Result<String, RenderError>>,
    ao: Seq<Result<String, RenderError>>,
) -> Option<Seq<Seq<char>>> {
    if has_body_template(t) && jinja::is_undeclared(bo) {
        Some(jinja::undeclared_list(bo))
    } else if first_undeclared(t.set@, so) is Some {
        first_undeclared(t.set@, so)
    } else {
        first_undeclared(t.add@, ao)
    }
}

/// The messages of the recoverable failures of a transform, body first.
pub open spec fn recoverable(
    t: LocalTransform,
    bo: Result<String, RenderError>,
    so: Seq<Result<String, RenderError>>,
    ao: Seq<Result<String, RenderError>>,
) -> Seq<Seq<char>> {
    (if has_body_template(t) && jinja::is_failed(bo) {
        seq![jinja::failure_message(bo)]
    } else {
        Seq::empty()
    }) + failures(t.set@, so) + failures(t.add@, ao)
}

/// The operations of a transform after its context is built, given the
/// length of the old body and what each template rendered to.
pub open spec fn rendered_calls(
    side: Side,
    t: LocalTransform,
    len: usize,
    bo: Result<String, RenderError>,
    so: Seq<Result<String, RenderError>>,
    ao: Seq<Result<String, RenderError>>,
) -> Seq<HostCall> {
    let bc = if has_body_template(t) {
        body_calls(side, len, bo)
    } else {
        Seq::empty()
    };
    if has_body_template(t) && jinja::is_undeclared(bo) {
        bc
    } else if first_undeclared(t.set@, so) is Some {
        bc + set_calls(side, t.set@, so)
    } else if first_undeclared(t.add@, ao) is Some {
        bc + set_calls(side, t.set@, so) + add_calls(side, t.add@, ao)
    } else {
        bc + set_calls(side, t.set@, so) + add_calls(side, t.add@, ao) + remove_calls(
            side,
            t.remove@,
        )
    }
}

/// `r` is the result owed for these render outcomes: the critical failure if
/// there is one; otherwise success when nothing failed, or the combined
/// message of the recoverable failures, labelled with `label`.
pub open spec fn result_matches(
    r: Result<(), TransformError>,
    label: Seq<char>,
    t: LocalTransform,
    bo: Result<String, RenderError>,
    so: Seq<Result<String, RenderError>>,
    ao: Seq<Result<String, RenderError>>,
) -> bool {
    match critical(t, bo, so, ao) {
        Some(names) => r is Err && r->Err_0 is UndeclaredJsonVariables && jinja::views(
            r->Err_0->UndeclaredJsonVariables_0@,
        ) == names,
        None => if recoverable(t, bo, so, ao).len() == 0 {
            r is Ok
        } else {
            r is Err && r->Err_0 is Rendering && r->Err_0->Rendering_0@ == combined(
                label,
                recoverable(t, bo, so, ao),
            )
        },
    }
}

// ---------------------------------------------------------------------------
// Operations on one side of the message

fn set_header<T: TransformationOps>(ops: &mut T, side: Side, key: &str, value: &[u8])
    ensures
        final(ops).calls() == old(ops).calls().push(HostCall::SetHeader(side, key@, value@)),
{
    match side {
        Side::Request => {
            ops.set_request_header(key, value);
        },
        Side::Response => {
            ops.set_response_header(key, value);
        },
    }
}

fn add_header<T: TransformationOps>(ops: &mut T, side: Side, key: &str, value: &[u8])
    ensures
        final(ops).calls() == old(ops).calls().push(HostCall::AddHeader(side, key@, value@)),
{
    match side {
        Side::Request => {
            ops.add_request_header(key, value);
        },
        Side::Response => {
            ops.add_response_header(key, value);
        },
    }
}

fn remove_header<T: TransformationOps>(ops: &mut T, side: Side, key: &str)
    ensures
        final(ops).calls() == old(ops).calls().push(HostCall::RemoveHeader(side, key@)),
{
    match side {
        Side::Request => {
            ops.remove_request_header(key);
        },
        Side::Response => {
            ops.remove_response_header(key);
        },
    }
}

fn read_body<T: TransformationOps>(ops: &mut T, side: Side) -> (r: Vec<u8>)
    ensures
        final(ops).calls() == old(ops).calls().push(HostCall::ReadBody(side, r@)),
{
    match side {
        Side::Request => ops.request_body(),
        Side::Response => ops.response_body(),
    }
}

fn drain_body<T: TransformationOps>(ops: &mut T, side: Side, n: usize)
    ensures
        final(ops).calls() == old(ops).calls().push(HostCall::DrainBody(side, n as nat)),
{
    match side {
        Side::Request => {
            ops.drain_request_body(n);
        },
        Side::Response => {
            ops.drain_response_body(n);
        },
    }
}

fn append_body<T: TransformationOps>(ops: &mut T, side: Side, data: &[u8])
    ensures
        final(ops).calls() == old(ops).calls().push(HostCall::AppendBody(side, data@)),
{
    match side {
        Side::Request => {
            ops.append_request_body(data);
        },
        Side::Response => {
            ops.append_response_body(data);
        },
    }
}

/// A copy of a list of texts.
fn clone_texts(v: &Vec<String>) -> (r: Vec<String>)
    ensures
        jinja::views(r@) == jinja::views(v@),
{
    let mut out: Vec<String> = Vec::new();
    let mut i: usize = 0;
    while i < v.len()
        invariant
            i <= v@.len(),
            jinja::views(out@) == jinja::views(v@.subrange(0, i as int)),
        decreases v@.len() - i,
    {
        let ghost before = out@;
        let c = v[i].clone();
        out.push(c);
        assert(jinja::views(out@) =~= jinja::views(before).push(c@));
        assert(jinja::views(v@.subrange(0, i + 1)) =~= jinja::views(v@.subrange(0, i as int)).push(
            v@[i as int]@,
        ));
        i += 1;
    }
    assert(v@.subrange(0, i as int) =~= v@);
    out
}

/// Applies the `set` entries given what their templates rendered to; the
/// messages of failed renders are added to `errors`. Returns the names of
/// the first undeclared-variable failure, where the entries stop.
fn apply_set<T: TransformationOps>(
    side: Side,
    entries: &Vec<NameValuePair>,
    outcomes: &Vec<Result<String, RenderError>>,
    ops: &mut T,
    errors: &mut Vec<String>,
) -> (r: Option<Vec<String>>)
    requires
        outcomes@.len() == entries@.len(),
    ensures
        final(ops).calls() == old(ops).calls() + set_calls(side, entries@, outcomes@),
        jinja::views(final(errors)@) == jinja::views(old(errors)@) + failures(entries@, outcomes@),
        match r {
            Some(v) => first_undeclared(entries@, outcomes@) == Some(jinja::views(v@)),
            None => first_undeclared(entries@, outcomes@) is None,
        },
{
    let n = entries.len();
    let mut i: usize = 0;
    assert(entries@.subrange(0, n as int) =~= entries@);
    assert(outcomes@.subrange(0, n as int) =~= outcomes@);
    while i < n
        invariant
            n == entries@.len(),
            outcomes@.len() == n,
            i <= n,
            ops.calls() + set_calls(side, entries@.subrange(i as int, n as int), outcomes@.subrange(i as int, n as int))
                == old(ops).calls() + set_calls(side, entries@, outcomes@),
            jinja::views(errors@) + failures(entries@.subrange(i as int, n as int), outcomes@.subrange(i as int, n as int))
                == jinja::views(old(errors)@) + failures(entries@, outcomes@),
            first_undeclared(entries@.subrange(i as int, n as int), outcomes@.subrange(i as int, n as int))
                == first_undeclared(entries@, outcomes@),
        decreases n - i,
    {
        let ghost es = entries@.subrange(i as int, n as int);
        let ghost os = outcomes@.subrange(i as int, n as int);
        let ghost calls0 = ops.calls();
        let ghost errs0 = jinja::views(errors@);
        assert(es.drop_first() =~= entries@.subrange(i + 1, n as int));
        assert(os.drop_first() =~= outcomes@.subrange(i + 1, n as int));
        assert(es[0] == entries@[i as int]);
        assert(os[0] == outcomes@[i as int]);
        let e = &entries[i];
        if e.value.as_str().is_empty() {
            remove_header(ops, side, e.name.as_str());
            assert(ops.calls() + set_calls(side, es.drop_first(), os.drop_first()) =~= calls0
                + set_calls(side, es, os));
        } else {
            match &outcomes[i] {
                Ok(s) => {
                    if s.as_str().is_empty() {
                        remove_header(ops, side, e.name.as_str());
                    } else {
                        set_header(ops, side, e.name.as_str(), s.as_str().as_bytes());
                    }
                    assert(ops.calls() + set_calls(side, es.drop_first(), os.drop_first()) =~= calls0
                        + set_calls(side, es, os));
                },
                Err(RenderError::UndeclaredJsonVariables(names)) => {
                    assert(set_calls(side, es, os) =~= Seq::<HostCall>::empty());
                    assert(ops.calls() =~= old(ops).calls() + set_calls(side, entries@, outcomes@));
                    assert(failures(es, os) =~= Seq::<Seq<char>>::empty());
                    assert(jinja::views(errors@) =~= jinja::views(old(errors)@) + failures(entries@, outcomes@));
                    return Some(clone_texts(names));
                },
                Err(RenderError::Failed(message)) => {
                    errors.push(message.clone());
                    remove_header(ops, side, e.name.as_str());
                    assert(ops.calls() + set_calls(side, es.drop_first(), os.drop_first()) =~= calls0
                        + set_calls(side, es, os));
                    assert(jinja::views(errors@) =~= errs0.push(message@));
                    assert(jinja::views(errors@) + failures(es.drop_first(), os.drop_first()) =~= errs0
                        + failures(es, os));
                },
            }
        }
        i += 1;
    }
    assert(entries@.subrange(i as int, n as int) =~= Seq::<NameValuePair>::empty());
    assert(ops.calls() =~= old(ops).calls() + set_calls(side, entries@, outcomes@));
    assert(jinja::views(errors@) =~= jinja::views(old(errors)@) + failures(entries@, outcomes@));
    None
}

/// Applies the `add` entries given what their templates rendered to; the
/// messages of failed renders are added to `errors`. Returns the names of
/// the first undeclared-variable failure, where the entries stop.
fn apply_add<T: TransformationOps>(
    side: Side,
    entries: &Vec<NameValuePair>,
    outcomes: &Vec<Result<String, RenderError>>,
    ops: &mut T,
    errors: &mut Vec<String>,
) -> (r: Option<Vec<String>>)
    requires
        outcomes@.len() == entries@.len(),
    ensures
        final(ops).calls() == old(ops).calls() + add_calls(side, entries@, outcomes@),
        jinja::views(final(errors)@) == jinja::views(old(errors)@) + failures(entries@, outcomes@),
        match r {
            Some(v) => first_undeclared(entries@, outcomes@) == Some(jinja::views(v@)),
            None => first_undeclared(entries@, outcomes@) is None,
        },
{
    let n = entries.len();
    let mut i: usize = 0;
    assert(entries@.subrange(0, n as int) =~= entries@);
    assert(outcomes@.subrange(0, n as int) =~= outcomes@);
    while i < n
        invariant
            n == entries@.len(),
            outcomes@.len() == n,
            i <= n,
            ops.calls() + add_calls(side, entries@.subrange(i as int, n as int), outcomes@.subrange(i as int, n as int))
                == old(ops).calls() + add_calls(side, entries@, outcomes@),
            jinja::views(errors@) + failures(entries@.subrange(i as int, n as int), outcomes@.subrange(i as int, n as int))
                == jinja::views(old(errors)@) + failures(entries@, outcomes@),
            first_undeclared(entries@.subrange(i as int, n as int), outcomes@.subrange(i as int, n as int))
                == first_undeclared(entries@, outcomes@),
        decreases n - i,
    {
        let ghost es = entries@.subrange(i as int, n as int);
        let ghost os = outcomes@.subrange(i as int, n as int);
        let ghost calls0 = ops.calls();
        let ghost errs0 = jinja::views(errors@);
        assert(es.drop_first() =~= entries@.subrange(i + 1, n as int));
        assert(os.drop_first() =~= outcomes@.subrange(i + 1, n as int));
        assert(es[0] == entries@[i as int]);
        assert(os[0] == outcomes@[i as int]);
        let e = &entries[i];
        if !e.value.as_str().is_empty() {
            match &outcomes[i] {
                Ok(s) => {
                    if !s.as_str().is_empty() {
                        add_header(ops, side, e.name.as_str(), s.as_str().as_bytes());
                        assert(ops.calls() + add_calls(side, es.drop_first(), os.drop_first()) =~= calls0
                            + add_calls(side, es, os));
                    }
                },
                Err(RenderError::UndeclaredJsonVariables(names)) => {
                    assert(add_calls(side, es, os) =~= Seq::<HostCall>::empty());
                    assert(ops.calls() =~= old(ops).calls() + add_calls(side, entries@, outcomes@));
                    assert(failures(es, os) =~= Seq::<Seq<char>>::empty());
                    assert(jinja::views(errors@) =~= jinja::views(old(errors)@) + failures(entries@, outcomes@));
                    return Some(clone_texts(names));
                },
                Err(RenderError::Failed(message)) => {
                    errors.push(message.clone());
                    assert(jinja::views(errors@) =~= errs0.push(message@));
                    assert(jinja::views(errors@) + failures(es.drop_first(), os.drop_first()) =~= errs0
                        + failures(es, os));
                },
            }
        }
        i += 1;
    }
    assert(entries@.subrange(i as int, n as int) =~= Seq::<NameValuePair>::empty());
    assert(ops.calls() =~= old(ops).calls() + add_calls(side, entries@, outcomes@));
    assert(jinja::views(errors@) =~= jinja::views(old(errors)@) + failures(entries@, outcomes@));
    None
}

/// Removes each named header, in order.
fn apply_remove<T: TransformationOps>(side: Side, names: &Vec<String>, ops: &mut T)
    ensures
        final(ops).calls() == old(ops).calls() + remove_calls(side, names@),
{
    let mut i: usize = 0;
    while i < names.len()
        invariant
            i <= names@.len(),
            ops.calls() == old(ops).calls() + remove_calls(side, names@.subrange(0, i as int)),
        decreases names@.len() - i,
    {
        remove_header(ops, side, names[i].as_str());
        assert(remove_calls(side, names@.subrange(0, i + 1)) =~= remove_calls(
            side,
            names@.subrange(0, i as int),
        ).push(HostCall::RemoveHeader(side, names@[i as int]@)));
        i += 1;
    }
    assert(names@.subrange(0, i as int) =~= names@);
}

/// Rewrites the body given the length of the old body and what the body
/// template rendered to; a failed render's message is added to `errors`.
/// Returns the names of an undeclared-variable failure.
fn apply_body<T: TransformationOps>(
    side: Side,
    len: usize,
    outcome: &Result<String, RenderError>,
    ops: &mut T,
    errors: &mut Vec<String>,
) -> (r: Option<Vec<String>>)
    ensures
        final(ops).calls() == old(ops).calls() + body_calls(side, len, *outcome),
        jinja::views(final(errors)@) == jinja::views(old(errors)@) + (if jinja::is_failed(*outcome) {
            seq![jinja::failure_message(*outcome)]
        } else {
            Seq::empty()
        }),
        r is Some <==> jinja::is_undeclared(*outcome),
        r is Some ==> jinja::views(r->0@) == jinja::undeclared_list(*outcome),
{
    let ghost calls0 = ops.calls();
    drain_body(ops, side, len);
    match outcome {
        Ok(s) => {
            if !s.as_str().is_empty() {
                let bytes = s.as_str().as_bytes();
                append_body(ops, side, bytes);
                let digits = text::decimal_digits(bytes.len());
                set_header(ops, side, "content-length", digits.as_slice());
            } else {
                let zero = text::decimal_digits(0);
                set_header(ops, side, "content-length", zero.as_slice());
                remove_header(ops, side, "content-type");
            }
            assert(ops.calls() =~= calls0 + body_calls(side, len, *outcome));
            assert(jinja::views(errors@) =~= jinja::views(old(errors)@) + Seq::<Seq<char>>::empty());
            None
        },
        Err(RenderError::UndeclaredJsonVariables(names)) => {
            assert(ops.calls() =~= calls0 + body_calls(side, len, *outcome));
            assert(jinja::views(errors@) =~= jinja::views(old(errors)@) + Seq::<Seq<char>>::empty());
            Some(clone_texts(names))
        },
        Err(RenderError::Failed(message)) => {
            let ghost errs0 = jinja::views(errors@);
            errors.push(message.clone());
            assert(jinja::views(errors@) =~= errs0.push(message@));
            let zero = text::decimal_digits(0);
            set_header(ops, side, "content-length", zero.as_slice());
            remove_header(ops, side, "content-type");
            assert(ops.calls() =~= calls0 + body_calls(side, len, *outcome));
            None
        },
    }
}

/// Applies a transform whose templates have been rendered: the body rewrite
/// (where there is a body template), then `set`, `add` and `remove`, given
/// the length of the old body and what each template rendered to. It stops
/// at the first undeclared-variable failure, which it returns; otherwise it
/// returns the failed renders' messages combined under `label`, or success.
pub fn apply_rendered<T: TransformationOps>(
    side: Side,
    t: &LocalTransform,
    body_len: usize,
    body_outcome: &Result<String, RenderError>,
    set_outcomes: &Vec<Result<String, RenderError>>,
    add_outcomes: &Vec<Result<String, RenderError>>,
    label: &str,
    ops: &mut T,
) -> (r: Result<(), TransformError>)
    requires
        set_outcomes@.len() == t.set@.len(),
        add_outcomes@.len() == t.add@.len(),
    ensures
        final(ops).calls() == old(ops).calls() + rendered_calls(
            side,
            *t,
            body_len,
            *body_outcome,
            set_outcomes@,
            add_outcomes@,
        ),
        result_matches(r, label@, *t, *body_outcome, set_outcomes@, add_outcomes@),
{
    let ghost calls0 = ops.calls();
    let ghost bo = *body_outcome;
    let ghost so = set_outcomes@;
    let ghost ao = add_outcomes@;
    let mut errors: Vec<String> = Vec::new();
    let has_body = match &t.body {
        Some(b) => !b.value.as_str().is_empty(),
        None => false,
    };
    if has_body {
        if let Some(names) = apply_body(side, body_len, body_outcome, ops, &mut errors) {
            assert(ops.calls() =~= calls0 + rendered_calls(side, *t, body_len, bo, so, ao));
            return Err(TransformError::UndeclaredJsonVariables(names));
        }
    }
    let ghost after_body = ops.calls();
    let ghost body_errors = jinja::views(errors@);
    assert(after_body =~= calls0 + if has_body_template(*t) {
        body_calls(side, body_len, bo)
    } else {
        Seq::empty()
    });
    if let Some(names) = apply_set(side, &t.set, set_outcomes, ops, &mut errors) {
        assert(ops.calls() =~= calls0 + rendered_calls(side, *t, body_len, bo, so, ao));
        return Err(TransformError::UndeclaredJsonVariables(names));
    }
    if let Some(names) = apply_add(side, &t.add, add_outcomes, ops, &mut errors) {
        assert(ops.calls() =~= calls0 + rendered_calls(side, *t, body_len, bo, so, ao));
        return Err(TransformError::UndeclaredJsonVariables(names));
    }
    apply_remove(side, &t.remove, ops);
    assert(ops.calls() =~= calls0 + rendered_calls(side, *t, body_len, bo, so, ao));
    assert(jinja::views(errors@) =~= recoverable(*t, bo, so, ao));
    match combine_errors(label, &errors) {
        Ok(()) => Ok(()),
        Err(message) => Err(TransformError::Rendering(message)),
    }
}

/// The body template asks for the raw body through `body()`.
pub open spec fn wants_raw_body(t: LocalTransform) -> bool {
    t.body is Some && text::contains_seq(t.body->0.value@, "body()"@)
}

/// The body template asks for the parsed body through `context()`.
pub open spec fn wants_parsed_body(t: LocalTransform) -> bool {
    t.body is Some && text::contains_seq(t.body->0.value@, "context()"@)
}

/// The transform reads the old body: to parse it, to hand it to `body()`, or
/// to replace it.
pub open spec fn reads_body(t: LocalTransform) -> bool {
    t.body is Some && (t.body->0.parse_as == BodyParseBehavior::AsJson || wants_raw_body(t)
        || t.body->0.value@.len() > 0)
}

/// The body read of a transform that got `bytes`, if it makes one.
pub open spec fn read_calls(side: Side, t: LocalTransform, bytes: Seq<u8>) -> Seq<HostCall> {
    if reads_body(t) {
        seq![HostCall::ReadBody(side, bytes)]
    } else {
        Seq::empty()
    }
}

/// The body `bytes` was to be parsed as JSON, is not empty, and is not JSON.
pub open spec fn body_parse_fails(t: LocalTransform, bytes: Seq<u8>) -> bool {
    parses_json(t) && bytes.len() > 0 && !jinja::json_parses_of(bytes)
}

/// The texts of a list of header pairs.
pub open spec fn pair_views(v: Seq<(String, String)>) -> Seq<(Seq<char>, Seq<char>)> {
    v.map_values(|p: (String, String)| (p.0@, p.1@))
}

/// `ctx` is the render context of transform `t` on a message with `headers`,
/// whose request has `request_headers`, and whose body read gave `bytes`: it
/// holds both header lists; the raw body, read without loss where it is
/// UTF-8, exactly when the body template asks for `body()`; a parsed body
/// exactly when parsing was asked for and the body is not empty; and exposes
/// the parsed body to `context()` exactly when the body template asks for it.
pub open spec fn context_fits(
    ctx: RenderContext,
    t: LocalTransform,
    headers: Seq<(String, String)>,
    request_headers: Seq<(String, String)>,
    bytes: Seq<u8>,
) -> bool {
    &&& pair_views(ctx.headers@) == pair_views(headers)
    &&& pair_views(ctx.request_headers@) == pair_views(request_headers)
    &&& ctx.raw_body is Some <==> wants_raw_body(t)
    &&& ctx.raw_body is Some ==> ctx.raw_body->0@ == text::utf8_lossy_of(bytes)
    &&& ctx.json_body is Some <==> (parses_json(t) && bytes.len() > 0)
    &&& ctx.expose_json_body == wants_parsed_body(t)
}

/// The render outcomes are ones the registry may give for the transform's
/// templates, one per `set` and per `add` entry, with JSON parsing as the
/// transform asks.
pub open spec fn outcomes_fit(
    registry: TemplateRegistry,
    t: LocalTransform,
    bo: Result<String, RenderError>,
    so: Seq<Result<String, RenderError>>,
    ao: Seq<Result<String, RenderError>>,
) -> bool {
    &&& so.len() == t.set@.len()
    &&& ao.len() == t.add@.len()
    &&& has_body_template(t) ==> jinja::render_post(registry, t.body->0.value@, parses_json(t), bo)
    &&& forall|i: int|
        0 <= i < so.len() ==> jinja::render_post(
            registry,
            #[trigger] t.set@[i].value@,
            parses_json(t),
            so[i],
        )
    &&& forall|i: int|
        0 <= i < ao.len() ==> jinja::render_post(
            registry,
            #[trigger] t.add@[i].value@,
            parses_json(t),
            ao[i],
        )
}

/// What happens once the body read gave `bytes`, where it is no JSON parse
/// failure: the templates are rendered against the context `context_fits`
/// describes, and the rest is what `apply_rendered` does with the outcomes,
/// the old body being drained in full.
pub open spec fn rendered_post(
    side: Side,
    t: LocalTransform,
    registry: TemplateRegistry,
    label: Seq<char>,
    headers: Seq<(String, String)>,
    request_headers: Seq<(String, String)>,
    bytes: Seq<u8>,
    before: Seq<HostCall>,
    after: Seq<HostCall>,
    r: Result<(), TransformError>,
) -> bool {
    exists|
        ctx: RenderContext,
        len: usize,
        bo: Result<String, RenderError>,
        so: Seq<Result<String, RenderError>>,
        ao: Seq<Result<String, RenderError>>,
    |
        #![trigger context_fits(ctx, t, headers, request_headers, bytes), rendered_calls(side, t, len, bo, so, ao)]
        context_fits(ctx, t, headers, request_headers, bytes) && len == bytes.len() && outcomes_fit(
            registry,
            t,
            bo,
            so,
            ao,
        ) && after == before + read_calls(side, t, bytes) + rendered_calls(side, t, len, bo, so, ao)
            && result_matches(r, label, t, bo, so, ao)
}

/// What transforming one message does, from the operations `before` to the
/// operations `after`, ending with `r`. An empty transform does nothing and
/// succeeds. The body is read where the transform needs it (and the bytes
/// are empty otherwise). If it was to be parsed as JSON and is neither empty
/// nor JSON, the transform stops right after the read with `BodyParse`;
/// otherwise `rendered_post` holds.
pub open spec fn message_post(
    side: Side,
    t: LocalTransform,
    registry: TemplateRegistry,
    label: Seq<char>,
    headers: Seq<(String, String)>,
    request_headers: Seq<(String, String)>,
    before: Seq<HostCall>,
    after: Seq<HostCall>,
    r: Result<(), TransformError>,
) -> bool {
    &&& t.is_empty_spec() ==> after == before && r is Ok
    &&& exists|bytes: Seq<u8>|
        #![trigger read_calls(side, t, bytes)]
        (!reads_body(t) ==> bytes.len() == 0) && if body_parse_fails(t, bytes) {
            after == before + read_calls(side, t, bytes) && r is Err && r->Err_0 is BodyParse
        } else {
            !(r is Err && r->Err_0 is BodyParse) && rendered_post(
                side,
                t,
                registry,
                label,
                headers,
                request_headers,
                bytes,
                before,
                after,
                r,
            )
        }
}

/// A copy of a list of header pairs.
fn clone_pairs(v: &Vec<(String, String)>) -> (r: Vec<(String, String)>)
    ensures
        pair_views(r@) == pair_views(v@),
{
    let mut out: Vec<(String, String)> = Vec::new();
    let mut i: usize = 0;
    while i < v.len()
        invariant
            i <= v@.len(),
            pair_views(out@) == pair_views(v@.subrange(0, i as int)),
        decreases v@.len() - i,
    {
        let ghost before = out@;
        let k = v[i].0.clone();
        let x = v[i].1.clone();
        out.push((k, x));
        assert(pair_views(out@) =~= pair_views(before).push((v@[i as int].0@, v@[i as int].1@)));
        assert(pair_views(v@.subrange(0, i + 1)) =~= pair_views(v@.subrange(0, i as int)).push(
            (v@[i as int].0@, v@[i as int].1@),
        ));
        i += 1;
    }
    assert(v@.subrange(0, i as int) =~= v@);
    out
}

/// The render context of transform `t` on a message with `headers`, whose
/// request has `request_headers`, whose body read gave `bytes`, and whose
/// body parsed to `json` where parsing was asked for and the body is not
/// empty.
pub fn build_context(
    t: &LocalTransform,
    headers: &Vec<(String, String)>,
    request_headers: &Vec<(String, String)>,
    bytes: &Vec<u8>,
    json: Option<serde_json::Value>,
) -> (r: RenderContext)
    requires
        json is Some <==> (parses_json(*t) && bytes@.len() > 0),
    ensures
        context_fits(r, *t, headers@, request_headers@, bytes@),
        r.json_body == json,
{
    let (wants_raw, wants_parsed) = match &t.body {
        Some(b) => (
            text::contains_text(b.value.as_str(), "body()"),
            text::contains_text(b.value.as_str(), "context()"),
        ),
        None => (false, false),
    };
    let raw_body = if wants_raw {
        Some(text::lossy_text(bytes.as_slice()))
    } else {
        None
    };
    RenderContext {
        headers: clone_pairs(headers),
        request_headers: clone_pairs(request_headers),
        raw_body,
        json_body: json,
        expose_json_body: wants_parsed,
    }
}

/// Renders the template of each entry.
fn render_all(
    registry: &TemplateRegistry,
    entries: &Vec<NameValuePair>,
    ctx: &RenderContext,
    parsed_body_as_json: bool,
) -> (r: Vec<Result<String, RenderError>>)
    requires
        registry.wf(),
    ensures
        r@.len() == entries@.len(),
        forall|i: int|
            0 <= i < r@.len() ==> jinja::render_post(
                *registry,
                #[trigger] entries@[i].value@,
                parsed_body_as_json,
                r@[i],
            ),
{
    let mut out: Vec<Result<String, RenderError>> = Vec::new();
    let mut i: usize = 0;
    while i < entries.len()
        invariant
            registry.wf(),
            i <= entries@.len(),
            out@.len() == i,
            forall|j: int|
                0 <= j < i ==> jinja::render_post(
                    *registry,
                    #[trigger] entries@[j].value@,
                    parsed_body_as_json,
                    out@[j],
                ),
        decreases entries@.len() - i,
    {
        let o = registry.render(entries[i].value.as_str(), ctx, parsed_body_as_json);
        out.push(o);
        i += 1;
    }
    out
}

/// Transforms one message: `headers` are its own headers, `request_headers`
/// those of the request.
fn transform_message<T: TransformationOps>(
    side: Side,
    t: &LocalTransform,
    registry: &TemplateRegistry,
    request_headers: &Vec<(String, String)>,
    headers: &Vec<(String, String)>,
    label: &str,
    ops: &mut T,
) -> (r: Result<(), TransformError>)
    requires
        registry.wf(),
    ensures
        message_post(
            side,
            *t,
            *registry,
            label@,
            headers@,
            request_headers@,
            old(ops).calls(),
            final(ops).calls(),
            r,
        ),
{
    let ghost calls0 = ops.calls();
    let (parse_as_json, wants_raw, rewrite) = match &t.body {
        Some(b) => (
            b.parse_as == BodyParseBehavior::AsJson,
            text::contains_text(b.value.as_str(), "body()"),
            !b.value.as_str().is_empty(),
        ),
        None => (false, false, false),
    };
    let bytes: Vec<u8> = if parse_as_json || wants_raw || rewrite {
        read_body(ops, side)
    } else {
        Vec::new()
    };
    assert(ops.calls() == calls0 + read_calls(side, *t, bytes@));
    let mut json: Option<serde_json::Value> = None;
    if parse_as_json && bytes.len() > 0 {
        match jinja::parse_json(bytes.as_slice()) {
            Ok(v) => {
                json = Some(v);
            },
            Err(e) => {
                proof {
                    assert(body_parse_fails(*t, bytes@));
                }
                return Err(TransformError::BodyParse(jinja::json_error_text(&e)));
            },
        }
    }
    let ghost after_read = ops.calls();
    let ctx = build_context(t, headers, request_headers, &bytes, json);
    let body_outcome = match &t.body {
        Some(b) => registry.render(b.value.as_str(), &ctx, parse_as_json),
        None => Ok(String::new()),
    };
    let set_outcomes = render_all(registry, &t.set, &ctx, parse_as_json);
    let add_outcomes = render_all(registry, &t.add, &ctx, parse_as_json);
    let len = bytes.len();
    let r = apply_rendered(side, t, len, &body_outcome, &set_outcomes, &add_outcomes, label, ops);
    proof {
        let bo = body_outcome;
        let so = set_outcomes@;
        let ao = add_outcomes@;
        assert(!body_parse_fails(*t, bytes@));
        assert(outcomes_fit(*registry, *t, bo, so, ao));
        assert(context_fits(ctx, *t, headers@, request_headers@, bytes@));
        assert(ops.calls() =~= calls0 + read_calls(side, *t, bytes@) + rendered_calls(side, *t, len, bo, so, ao));
        assert(rendered_post(side, *t, *registry, label@, headers@, request_headers@, bytes@, calls0, ops.calls(), r));
        if t.is_empty_spec() {
            reveal_strlit("body()");
            assert(rendered_calls(side, *t, len, bo, so, ao) =~= Seq::<HostCall>::empty());
            assert(recoverable(*t, bo, so, ao) =~= Seq::<Seq<char>>::empty());
            assert(read_calls(side, *t, bytes@) =~= Seq::<HostCall>::empty());
        }
    }
    r
}

/// Transforms a request: `header()` and `request_header()` both read the
/// request headers.
pub fn transform_request_headers<T: TransformationOps>(
    transform: &LocalTransform,
    registry: &TemplateRegistry,
    request_headers: &Vec<(String, String)>,
    ops: &mut T,
) -> (r: Result<(), TransformError>)
    requires
        registry.wf(),
    ensures
        message_post(
            Side::Request,
            *transform,
            *registry,
            "transform_request_headers()"@,
            request_headers@,
            request_headers@,
            old(ops).calls(),
            final(ops).calls(),
            r,
        ),
{
    transform_message(
        Side::Request,
        transform,
        registry,
        request_headers,
        request_headers,
        "transform_request_headers()",
        ops,
    )
}

/// Transforms a response: `header()` reads the response headers and
/// `request_header()` the request headers.
pub fn transform_response_headers<T: TransformationOps>(
    transform: &LocalTransform,
    registry: &TemplateRegistry,
    request_headers: &Vec<(String, String)>,
    response_headers: &Vec<(String, String)>,
    ops: &mut T,
) -> (r: Result<(), TransformError>)
    requires
        registry.wf(),
    ensures
        message_post(
            Side::Response,
            *transform,
            *registry,
            "transform_response_headers()"@,
            response_headers@,
            request_headers@,
            old(ops).calls(),
            final(ops).calls(),
            r,
        ),
{
    transform_message(
        Side::Response,
        transform,
        registry,
        request_headers,
        response_headers,
        "transform_response_headers()",
        ops,
    )
}

// ---------------------------------------------------------------------------
// Laws

/// The body part of a transform's operations.
pub open spec fn body_part(side: Side, t: LocalTransform, len: usize, bo: Result<String, RenderError>) -> Seq<HostCall> {
    if has_body_template(t) {
        body_calls(side, len, bo)
    } else {
        Seq::empty()
    }
}

/// Where entry `i` has a template and its render failed on undeclared
/// variables, the entries stop at or before `i`: their operations are those
/// of the first `i` entries.
pub proof fn lemma_set_calls_stop(
    side: Side,
    es: Seq<NameValuePair>,
    os: Seq<Result<String, RenderError>>,
    i: int,
)
    requires
        0 <= i < es.len(),
        os.len() == es.len(),
        es[i].value@.len() > 0,
        jinja::is_undeclared(os[i]),
    ensures
        set_calls(side, es, os) == set_calls(side, es.take(i), os.take(i)),
        first_undeclared(es, os) is Some,
    decreases i,
{
    if i == 0 {
        assert(es.take(0).len() == 0);
    } else {
        let t = es.take(i);
        let u = os.take(i);
        assert(t[0] == es[0]);
        assert(u[0] == os[0]);
        assert(t.drop_first() =~= es.drop_first().take(i - 1));
        assert(u.drop_first() =~= os.drop_first().take(i - 1));
        lemma_set_calls_stop(side, es.drop_first(), os.drop_first(), i - 1);
    }
}

/// A `set` entry whose template reads a variable that is no template
/// function, in a transform that does not parse the body as JSON, makes the
/// whole transform fail with `UndeclaredJsonVariables`, and no operation of
/// any later `set` entry, nor of any `add` or `remove` entry, is performed.
pub proof fn lemma_undeclared_set_entry_aborts(
    side: Side,
    registry: TemplateRegistry,
    t: LocalTransform,
    i: int,
    len: usize,
    bo: Result<String, RenderError>,
    so: Seq<Result<String, RenderError>>,
    ao: Seq<Result<String, RenderError>>,
    label: Seq<char>,
    r: Result<(), TransformError>,
)
    requires
        0 <= i < t.set@.len(),
        t.set@[i].value@.len() > 0,
        registry.holds(t.set@[i].value@),
        exists|n: Seq<char>|
            jinja::free_variables_of(t.set@[i].value@).contains(n) && !jinja::is_template_function(n),
        !parses_json(t),
        outcomes_fit(registry, t, bo, so, ao),
        result_matches(r, label, t, bo, so, ao),
    ensures
        r is Err && r->Err_0 is UndeclaredJsonVariables,
        exists|k: int|
            0 <= k <= i && rendered_calls(side, t, len, bo, so, ao) == body_part(side, t, len, bo)
                + set_calls(side, t.set@.take(k), so.take(k)),
{
    assert(jinja::render_post(registry, t.set@[i].value@, parses_json(t), so[i]));
    lemma_set_calls_stop(side, t.set@, so, i);
    if has_body_template(t) && jinja::is_undeclared(bo) {
        assert(t.set@.take(0) =~= Seq::<NameValuePair>::empty());
        assert(rendered_calls(side, t, len, bo, so, ao) =~= body_part(side, t, len, bo) + set_calls(
            side,
            t.set@.take(0),
            so.take(0),
        ));
    } else {
        assert(rendered_calls(side, t, len, bo, so, ao) == body_part(side, t, len, bo) + set_calls(
            side,
            t.set@.take(i),
            so.take(i),
        ));
    }
}

/// Split of the `set` operations at entry `i`, when no entry before `i`
/// failed on undeclared variables.
pub proof fn lemma_set_calls_split(
    side: Side,
    es: Seq<NameValuePair>,
    os: Seq<Result<String, RenderError>>,
    i: int,
)
    requires
        0 <= i < es.len(),
        os.len() == es.len(),
        first_undeclared(es.take(i), os.take(i)) is None,
        es[i].value@.len() == 0,
    ensures
        set_calls(side, es, os) == set_calls(side, es.take(i), os.take(i)) + seq![
            HostCall::RemoveHeader(side, es[i].name@),
        ] + set_calls(side, es.skip(i + 1), os.skip(i + 1)),
    decreases i,
{
    if i == 0 {
        assert(es.take(0).len() == 0);
        assert(es.drop_first() =~= es.skip(1));
        assert(os.drop_first() =~= os.skip(1));
    } else {
        let t = es.take(i);
        let u = os.take(i);
        assert(t[0] == es[0]);
        assert(u[0] == os[0]);
        assert(t.drop_first() =~= es.drop_first().take(i - 1));
        assert(u.drop_first() =~= os.drop_first().take(i - 1));
        assert(es.drop_first().skip(i) =~= es.skip(i + 1));
        assert(os.drop_first().skip(i) =~= os.skip(i + 1));
        lemma_set_calls_split(side, es.drop_first(), os.drop_first(), i - 1);
    }
}

/// A `set` entry with an empty template removes its header, whatever its
/// render gave, provided no earlier entry stopped the transform.
pub proof fn lemma_empty_set_value_removes(
    side: Side,
    es: Seq<NameValuePair>,
    os: Seq<Result<String, RenderError>>,
    i: int,
)
    requires
        0 <= i < es.len(),
        os.len() == es.len(),
        first_undeclared(es.take(i), os.take(i)) is None,
        es[i].value@.len() == 0,
    ensures
        set_calls(side, es, os).contains(HostCall::RemoveHeader(side, es[i].name@)),
{
    lemma_set_calls_split(side, es, os, i);
    let pre = set_calls(side, es.take(i), os.take(i));
    assert(set_calls(side, es, os)[pre.len() as int] == HostCall::RemoveHeader(side, es[i].name@));
}

/// Where nothing critical happened, the `remove` entries come last, each
/// removing its header, after whatever the body, `set` and `add` entries did.
pub proof fn lemma_removes_come_last(
    side: Side,
    t: LocalTransform,
    len: usize,
    bo: Result<String, RenderError>,
    so: Seq<Result<String, RenderError>>,
    ao: Seq<Result<String, RenderError>>,
)
    requires
        critical(t, bo, so, ao) is None,
    ensures
        rendered_calls(side, t, len, bo, so, ao) == body_part(side, t, len, bo) + set_calls(
            side,
            t.set@,
            so,
        ) + add_calls(side, t.add@, ao) + remove_calls(side, t.remove@),
        forall|j: int|
            0 <= j < t.remove@.len() ==> #[trigger] remove_calls(side, t.remove@)[j]
                == HostCall::RemoveHeader(side, t.remove@[j]@),
        remove_calls(side, t.remove@).len() == t.remove@.len(),
{
}

/// Transforming is a function of the message and of what its templates
/// rendered to: with the same body length and the same render outcomes, two
/// applications perform the same operations and end the same way.
pub proof fn lemma_apply_is_deterministic(
    side: Side,
    t: LocalTransform,
    len: usize,
    bo: Result<String, RenderError>,
    so: Seq<Result<String, RenderError>>,
    ao: Seq<Result<String, RenderError>>,
    label: Seq<char>,
    before: Seq<HostCall>,
    after1: Seq<HostCall>,
    after2: Seq<HostCall>,
    r1: Result<(), TransformError>,
    r2: Result<(), TransformError>,
)
    requires
        after1 == before + rendered_calls(side, t, len, bo, so, ao),
        after2 == before + rendered_calls(side, t, len, bo, so, ao),
        result_matches(r1, label, t, bo, so, ao),
        result_matches(r2, label, t, bo, so, ao),
    ensures
        after1 == after2,
        r1 is Ok <==> r2 is Ok,
        r1 is Err ==> error_view(r1->Err_0) == error_view(r2->Err_0),
{
}

/// What a transform error says: its kind and its names or message.
pub open spec fn error_view(e: TransformError) -> (int, Seq<Seq<char>>) {
    match e {
        TransformError::UndeclaredJsonVariables(v) => (0, jinja::views(v@)),
        TransformError::BodyParse(m) => (1, seq![m@]),
        TransformError::Rendering(m) => (2, seq![m@]),
    }
}

} // verus!
