//! The render pipeline: a registry of compiled templates over a minijinja
//! environment that holds the template functions, and the rendering of one
//! template against a context.
use vstd::prelude::*;
use crate::config::{LocalTransform, LocalTransformationConfig, NameValuePair};
use crate::functions::{
    base64_decode, base64_encode, base64url_decode, base64url_encode, body, context, header,
    lookup_env, raw_string, replace_with_random, replace_with_string, request_header, substring,
};
use crate::text;
use minijinja::{Environment, State, Value};

pub use crate::transform::{transform_request_headers, transform_response_headers};

verus! {

#[verifier::external_type_specification]
#[verifier::external_body]
pub struct ExEnvironment<'source>(Environment<'source>);

#[verifier::external_type_specification]
#[verifier::external_body]
pub struct ExValue(Value);

#[verifier::external_type_specification]
#[verifier::external_body]
pub struct ExTemplateError(minijinja::Error);

#[verifier::external_type_specification]
#[verifier::external_body]
pub struct ExState<'template, 'env>(State<'template, 'env>);

#[verifier::external_type_specification]
#[verifier::external_body]
pub struct ExJsonValue(serde_json::Value);

#[verifier::external_type_specification]
#[verifier::external_body]
pub struct ExJsonError(serde_json::Error);

/// The names of the variables that a template source reads without defining
/// them itself, as minijinja finds them under its default syntax.
pub uninterp spec fn free_variables_of(source: Seq<char>) -> Set<Seq<char>>;

/// `name` is the name of a function of minijinja's own that every template
/// can call.
pub open spec fn is_builtin_function(name: Seq<char>) -> bool {
    ||| name == "range"@
    ||| name == "dict"@
    ||| name == "debug"@
    ||| name == "namespace"@
}

/// The names of minijinja's own functions.
pub open spec fn builtin_function_names() -> Set<Seq<char>> {
    Set::new(|n: Seq<char>| is_builtin_function(n))
}

/// The names of the functions this library gives every template.
pub open spec fn library_function_names() -> Set<Seq<char>> {
    Set::new(|n: Seq<char>| is_library_function(n))
}

/// `name` is the name of a function that every template can call.
pub open spec fn is_template_function(name: Seq<char>) -> bool {
    is_builtin_function(name) || is_library_function(name)
}

/// `name` is the name of a function this library gives every template.
pub open spec fn is_library_function(name: Seq<char>) -> bool {
    ||| name == "env"@
    ||| name == "substring"@
    ||| name == "header"@
    ||| name == "request_header"@
    ||| name == "body"@
    ||| name == "context"@
    ||| name == "base64_encode"@
    ||| name == "base64_decode"@
    ||| name == "base64url_encode"@
    ||| name == "base64url_decode"@
    ||| name == "replace_with_random"@
    ||| name == "replace_with_string"@
    ||| name == "raw_string"@
}

/// Whether `name` is the name of a template function.
pub fn is_function_name(name: &str) -> (r: bool)
    ensures
        r == is_template_function(name@),
{
    text::same_text(name, "env") || text::same_text(name, "substring") || text::same_text(
        name,
        "header",
    ) || text::same_text(name, "request_header") || text::same_text(name, "body")
        || text::same_text(name, "context") || text::same_text(name, "base64_encode")
        || text::same_text(name, "base64_decode") || text::same_text(name, "base64url_encode")
        || text::same_text(name, "base64url_decode") || text::same_text(
        name,
        "replace_with_random",
    ) || text::same_text(name, "replace_with_string") || text::same_text(name, "raw_string")
        || text::same_text(name, "range") || text::same_text(name, "dict") || text::same_text(
        name,
        "debug",
    ) || text::same_text(name, "namespace")
}

/// The views of a sequence of texts.
pub open spec fn views(v: Seq<String>) -> Seq<Seq<char>> {
    v.map_values(|s: String| s@)
}

/// The names in `names` that are not template functions, in order.
pub open spec fn undeclared_of(names: Seq<Seq<char>>) -> Seq<Seq<char>>
    decreases names.len(),
{
    if names.len() == 0 {
        Seq::empty()
    } else if is_template_function(names.last()) {
        undeclared_of(names.drop_last())
    } else {
        undeclared_of(names.drop_last()).push(names.last())
    }
}

/// A name is in `undeclared_of(names)` exactly when it is in `names` and is
/// no template function.
pub proof fn lemma_undeclared_members(names: Seq<Seq<char>>)
    ensures
        forall|n: Seq<char>|
            #[trigger] undeclared_of(names).contains(n) <==> (names.contains(n)
                && !is_template_function(n)),
    decreases names.len(),
{
    if names.len() > 0 {
        let rest = names.drop_last();
        lemma_undeclared_members(rest);
        assert forall|n: Seq<char>| #[trigger] undeclared_of(names).contains(n) <==> (
        names.contains(n) && !is_template_function(n)) by {
            if names.contains(n) {
                let i = choose|i: int| 0 <= i < names.len() && names[i] == n;
                if i < names.len() - 1 {
                    assert(rest[i] == n);
                }
            }
            if rest.contains(n) {
                let i = choose|i: int| 0 <= i < rest.len() && rest[i] == n;
                assert(names[i] == n);
            }
            if undeclared_of(rest).contains(n) {
                let i = choose|i: int|
                    0 <= i < undeclared_of(rest).len() && undeclared_of(rest)[i] == n;
                if !is_template_function(names.last()) {
                    assert(undeclared_of(names)[i] == n);
                }
            }
            if !is_template_function(names.last()) {
                assert(undeclared_of(names).last() == names.last());
                if undeclared_of(names).contains(n) && n != names.last() {
                    let i = choose|i: int|
                        0 <= i < undeclared_of(names).len() && undeclared_of(names)[i] == n;
                    assert(undeclared_of(rest)[i] == n);
                }
            }
        }
    }
}

/// The names in `names` that are not template functions, in order.
pub fn undeclared_names(names: &Vec<String>) -> (r: Vec<String>)
    ensures
        views(r@) == undeclared_of(views(names@)),
{
    let mut out: Vec<String> = Vec::new();
    let mut i: usize = 0;
    while i < names.len()
        invariant
            i <= names@.len(),
            views(out@) == undeclared_of(views(names@.subrange(0, i as int))),
        decreases names@.len() - i,
    {
        let ghost before = out@;
        assert(views(names@.subrange(0, i + 1)).drop_last() =~= views(names@.subrange(0, i as int)));
        assert(views(names@.subrange(0, i + 1)).last() == names@[i as int]@);
        if !is_function_name(names[i].as_str()) {
            out.push(names[i].clone());
            assert(views(out@) =~= views(before).push(names@[i as int]@));
        }
        i += 1;
    }
    assert(names@.subrange(0, i as int) =~= names@);
    out
}

/// The context variable that holds the headers of the message being transformed.
pub const HEADERS_VAR: &'static str = "headers";

/// The context variable that holds the headers of the request.
pub const REQUEST_HEADERS_VAR: &'static str = "request_headers";

/// The context variable that holds the raw body, where a body template asks for it.
pub const RAW_BODY_VAR: &'static str = "__body";

/// The context variable that holds the parsed body, where a body template asks for it.
pub const PARSED_BODY_VAR: &'static str = "__context";

/// What the templates of one message are rendered against: the headers of
/// the message, those of the request, the raw body where a template asks for
/// `body()`, and the body parsed as JSON where parsing was asked for. The
/// members of a parsed JSON object are variables of the context;
/// `context()` gives the parsed body where `expose_json_body` is set.
pub struct RenderContext {
    pub headers: Vec<(String, String)>,
    pub request_headers: Vec<(String, String)>,
    pub raw_body: Option<String>,
    pub json_body: Option<serde_json::Value>,
    pub expose_json_body: bool,
}

/// Relies on minijinja's `Value::from_serialize` and `FromIterator<(K, V)>`
/// for `Value`: the context as a map value. The members of a JSON object
/// body come first, so that the library's own variables win over them; the
/// header lists become lists of `[name, value]` pairs; an absent raw body
/// becomes `none`.
#[verifier::external_body]
fn context_value(ctx: &RenderContext) -> (r: Value) {
    let mut entries = Vec::new();
    if let Some(serde_json::Value::Object(m)) = &ctx.json_body {
        entries.extend(m.iter().map(|(k, v)| (k.clone(), Value::from_serialize(v))));
    }
    if ctx.expose_json_body {
        entries.extend(ctx.json_body.iter().map(|j| (PARSED_BODY_VAR.into(), Value::from_serialize(j))));
    }
    entries.push((RAW_BODY_VAR.into(), Value::from_serialize(&ctx.raw_body)));
    entries.push((HEADERS_VAR.into(), Value::from_serialize(&ctx.headers)));
    entries.push((REQUEST_HEADERS_VAR.into(), Value::from_serialize(&ctx.request_headers)));
    Value::from_iter(entries)
}

/// Relies on minijinja's `State::lookup`: the value of a variable, if it is defined.
#[verifier::external_body]
pub(crate) fn lookup_var(state: &State, name: &str) -> (r: Option<Value>) {
    state.lookup(name)
}

/// Relies on minijinja's `Deserializer` for `Value`: the name/value pairs
/// that a list of pairs of texts holds, if it is one.
#[verifier::external_body]
pub(crate) fn value_pairs(v: Value) -> (r: Option<Vec<(String, String)>>) {
    <Vec<(String, String)> as serde::Deserialize>::deserialize(v).ok()
}

/// Relies on minijinja's `Value::as_str`: the text that a string value holds.
#[verifier::external_body]
pub(crate) fn value_text(v: &Value) -> (r: Option<String>) {
    v.as_str().map(String::from)
}

/// Relies on minijinja's `Value::UNDEFINED`.
#[verifier::external_body]
pub(crate) fn undefined_value() -> (r: Value) {
    Value::UNDEFINED
}

/// Whether `b` is one JSON document, as serde_json reads it.
pub uninterp spec fn json_parses_of(b: Seq<u8>) -> bool;

/// Relies on serde_json's `from_slice`: the JSON value that the bytes hold,
/// or why they hold none; which of the two depends on the bytes alone.
#[verifier::external_body]
pub(crate) fn parse_json(b: &[u8]) -> (r: Result<serde_json::Value, serde_json::Error>)
    ensures
        r is Ok <==> json_parses_of(b@),
{
    serde_json::from_slice(b)
}

/// Relies on the `Display` of serde_json's `Error`.
#[verifier::external_body]
pub(crate) fn json_error_text(e: &serde_json::Error) -> (r: String) {
    e.to_string()
}

/// The names of the global functions and variables an environment holds.
pub uninterp spec fn globals_of(env: Environment<'static>) -> Set<Seq<char>>;

/// Relies on minijinja's `Environment::new`: an environment with the default
/// syntax, whose globals are minijinja's builtin functions.
#[verifier::external_body]
fn new_environment() -> (r: Environment<'static>)
    ensures
        globals_of(r) == builtin_function_names(),
{
    Environment::new()
}

/// Relies on minijinja's `Environment::add_function`: registers each template
/// function of the library under its name; `env` looks names up in `vars`.
#[verifier::external_body]
fn register_functions(env: &mut Environment<'static>, vars: Vec<(String, String)>)
    ensures
        globals_of(*final(env)) == globals_of(*old(env)).union(library_function_names()),
{
    env.add_function("env", move |name: &str| lookup_env(&vars, name));
    env.add_function("substring", substring);
    env.add_function("header", header);
    env.add_function("request_header", request_header);
    env.add_function("body", body);
    env.add_function("context", context);
    env.add_function("base64_encode", base64_encode);
    env.add_function("base64_decode", base64_decode);
    env.add_function("base64url_encode", base64url_encode);
    env.add_function("base64url_decode", base64url_decode);
    env.add_function("replace_with_random", replace_with_random);
    env.add_function("replace_with_string", replace_with_string);
    env.add_function("raw_string", raw_string);
}

/// The names every template of `new_jinja_env` can call as functions:
/// minijinja's builtins and the library's own.
pub open spec fn known_function_names() -> Set<Seq<char>> {
    builtin_function_names().union(library_function_names())
}

/// A template environment whose globals are exactly minijinja's builtin
/// functions and the library's template functions; `env(name)` reads
/// `env_vars`, a snapshot of the process environment.
pub fn new_jinja_env(env_vars: Vec<(String, String)>) -> (r: Environment<'static>)
    ensures
        globals_of(r) == known_function_names(),
{
    let mut env = new_environment();
    register_functions(&mut env, env_vars);
    env
}

/// Whether a template source compiles under minijinja's default syntax.
pub uninterp spec fn compiles_of(source: Seq<char>) -> bool;

/// Relies on minijinja's `Environment::add_template_owned`, which compiles
/// `source` and keeps it under `name` (its success depends on the source
/// alone), and on `Template::undeclared_variables`, which lists the names the
/// source reads without defining them.
#[verifier::external_body]
fn compile_template(env: &mut Environment<'static>, name: &String, source: &String) -> (r: Result<
    Vec<String>,
    minijinja::Error,
>)
    ensures
        r is Ok <==> compiles_of(source@),
        r is Ok ==> views(r->Ok_0@).to_set() == free_variables_of(source@),
        globals_of(*final(env)) == globals_of(*old(env)),
{
    env.add_template_owned(name.clone(), source.clone())?;
    Ok(env.get_template(name)?.undeclared_variables(false).into_iter().collect())
}

/// Relies on minijinja's `Environment::get_template` and `Template::render`:
/// renders the template kept under `name` against the context.
#[verifier::external_body]
fn render_compiled(env: &Environment<'static>, name: &str, ctx: &RenderContext) -> (r: Result<
    String,
    minijinja::Error,
>) {
    env.get_template(name)?.render(context_value(ctx))
}

/// Relies on the `Display` of minijinja's `Error` and of its sources: the
/// message of the error, then those of its causes, in order.
#[verifier::external_body]
fn template_error_messages(e: &minijinja::Error) -> (r: Vec<String>) {
    let mut messages = vec![e.to_string()];
    let mut cause = std::error::Error::source(e);
    while let Some(c) = cause {
        messages.push(c.to_string());
        cause = c.source();
    }
    messages
}

/// The description of a template error: its message and those of its
/// causes, each after `": "`.
pub(crate) fn template_error_text(e: &minijinja::Error) -> (r: String) {
    let messages = template_error_messages(e);
    text::join_texts(&messages, ": ")
}

/// A failure to load a configuration.
#[derive(Clone, Debug)]
pub enum ConfigError {
    /// The policy document could not be read.
    Malformed(String),
    /// A template of the policy does not compile.
    InvalidTemplate { template: String, message: String },
}

/// Why a template did not render.
#[derive(Clone, Debug)]
pub enum RenderError {
    /// The template reads variables that are no template functions while the
    /// body was not parsed as JSON; these are their names.
    UndeclaredJsonVariables(Vec<String>),
    /// Anything else that went wrong, described.
    Failed(String),
}

/// The templates of a configuration, compiled once, in an environment that
/// holds every template function. Each is kept with the name it is compiled
/// under and the names minijinja found free in it.
pub struct TemplateRegistry {
    env: Environment<'static>,
    templates: Vec<(String, String, Vec<String>)>,
}

/// Every template text of a transform: the `set` values, the `add` values and
/// the body template.
pub open spec fn transform_templates(t: LocalTransform) -> Seq<Seq<char>> {
    t.set@.map_values(|p: NameValuePair| p.value@) + t.add@.map_values(|p: NameValuePair| p.value@)
        + match t.body {
        Some(b) => seq![b.value@],
        None => Seq::empty(),
    }
}

/// Every template text of an optional transform.
pub open spec fn optional_templates(t: Option<LocalTransform>) -> Seq<Seq<char>> {
    match t {
        Some(t) => transform_templates(t),
        None => Seq::empty(),
    }
}

/// Every template text of a configuration, request side then response side.
pub open spec fn config_templates(c: LocalTransformationConfig) -> Seq<Seq<char>> {
    optional_templates(c.request) + optional_templates(c.response)
}

/// Every non-empty template in `templates` compiles.
pub open spec fn all_compile(templates: Seq<Seq<char>>) -> bool {
    forall|i: int| 0 <= i < templates.len() && templates[i].len() > 0 ==> compiles_of(#[trigger] templates[i])
}

/// What rendering `template` with `registry` may give: the empty text for an
/// empty template; `Failed` for a template it does not hold;
/// `UndeclaredJsonVariables`, naming them, exactly when the body was not
/// parsed as JSON and the template reads a variable that is no template
/// function; otherwise a text or `Failed`.
pub open spec fn render_post(
    registry: TemplateRegistry,
    template: Seq<char>,
    parsed_body_as_json: bool,
    r: Result<String, RenderError>,
) -> bool {
    &&& template.len() == 0 ==> r is Ok && r->Ok_0@.len() == 0
    &&& template.len() > 0 && !registry.holds(template) ==> is_failed(r)
    &&& is_undeclared(r) <==> (template.len() > 0 && registry.holds(template)
        && !parsed_body_as_json && exists|n: Seq<char>|
        free_variables_of(template).contains(n) && !is_template_function(n))
    &&& is_undeclared(r) ==> forall|n: Seq<char>|
        #[trigger] undeclared_list(r).contains(n) <==> (free_variables_of(template).contains(n)
            && !is_template_function(n))
}

/// The render failed with `UndeclaredJsonVariables`.
pub open spec fn is_undeclared(r: Result<String, RenderError>) -> bool {
    r is Err && r->Err_0 is UndeclaredJsonVariables
}

/// The render failed with `Failed`.
pub open spec fn is_failed(r: Result<String, RenderError>) -> bool {
    r is Err && r->Err_0 is Failed
}

/// The names an `UndeclaredJsonVariables` failure gives.
pub open spec fn undeclared_list(r: Result<String, RenderError>) -> Seq<Seq<char>> {
    views(r->Err_0->UndeclaredJsonVariables_0@)
}

/// The message a `Failed` failure gives.
pub open spec fn failure_message(r: Result<String, RenderError>) -> Seq<char> {
    r->Err_0->Failed_0@
}

impl TemplateRegistry {
    /// The environment holds exactly the known functions; each kept template
    /// compiles and has, beside it, the names minijinja found free in it.
    pub closed spec fn wf(&self) -> bool {
        &&& globals_of(self.env) == known_function_names()
        &&& forall|i: int|
            0 <= i < self.templates@.len() ==> #[trigger] views(self.templates@[i].2@).to_set()
                == free_variables_of(self.templates@[i].0@) && compiles_of(self.templates@[i].0@)
    }

    /// The registry holds a compiled template with the text `source`.
    pub closed spec fn holds(&self, source: Seq<char>) -> bool {
        exists|i: int| 0 <= i < self.templates@.len() && #[trigger] self.templates@[i].0@ == source
    }

    /// A registry for `config`: every non-empty template of it compiled once;
    /// `env(name)` in a template reads `env_vars`. Loading fails exactly when
    /// some template does not compile, and names such a template.
    pub fn new(config: &LocalTransformationConfig, env_vars: Vec<(String, String)>) -> (r: Result<
        TemplateRegistry,
        ConfigError,
    >)
        ensures
            r is Ok <==> all_compile(config_templates(*config)),
            r is Ok ==> r->Ok_0.wf(),
            r is Ok ==> forall|i: int|
                0 <= i < config_templates(*config).len() && config_templates(*config)[i].len() > 0
                    ==> r->Ok_0.holds(#[trigger] config_templates(*config)[i]),
            r matches Err(ConfigError::InvalidTemplate { template, message }) ==> config_templates(
                *config,
            ).contains(template@) && !compiles_of(template@),
            !(r matches Err(ConfigError::Malformed(_))),
    {
        let mut registry = TemplateRegistry { env: new_jinja_env(env_vars), templates: Vec::new() };
        let ghost req = optional_templates(config.request);
        let ghost resp = optional_templates(config.response);
        assert(config_templates(*config) == req + resp);
        if let Some(t) = &config.request {
            match registry.compile_transform(t) {
                Ok(()) => {},
                Err(e) => {
                    proof {
                        if e is InvalidTemplate {
                            let tmpl = e->template@;
                            let k = choose|k: int| 0 <= k < req.len() && req[k] == tmpl;
                            assert((req + resp)[k] == tmpl);
                        }
                    }
                    return Err(e);
                },
            }
        }
        let ghost mid = registry;
        if let Some(t) = &config.response {
            match registry.compile_transform(t) {
                Ok(()) => {},
                Err(e) => {
                    proof {
                        if e is InvalidTemplate {
                            let tmpl = e->template@;
                            let k = choose|k: int| 0 <= k < resp.len() && resp[k] == tmpl;
                            assert((req + resp)[req.len() + k] == tmpl);
                        }
                    }
                    return Err(e);
                },
            }
        }
        assert forall|i: int|
            0 <= i < config_templates(*config).len() && config_templates(*config)[i].len() > 0
                implies registry.holds(#[trigger] config_templates(*config)[i]) by {
            if i < req.len() {
                assert(req[i] == config_templates(*config)[i]);
                assert(mid.holds(req[i]));
                let j = choose|j: int| 0 <= j < mid.templates@.len() && #[trigger] mid.templates@[j].0@ == req[i];
                assert(registry.templates@[j] == mid.templates@[j]);
            } else {
                assert(resp[i - req.len()] == config_templates(*config)[i]);
            }
        }
        assert forall|i: int|
            0 <= i < config_templates(*config).len() && config_templates(*config)[i].len() > 0
                implies compiles_of(#[trigger] config_templates(*config)[i]) by {
            assert(registry.holds(config_templates(*config)[i]));
            let j = choose|j: int| 0 <= j < registry.templates@.len() && #[trigger] registry.templates@[j].0@ == config_templates(*config)[i];
            assert(views(registry.templates@[j].2@).to_set() == free_variables_of(registry.templates@[j].0@));
            assert(compiles_of(registry.templates@[j].0@));
        }
        Ok(registry)
    }

    /// Compiles every non-empty template of `t` not yet held.
    fn compile_transform(&mut self, t: &LocalTransform) -> (r: Result<(), ConfigError>)
        requires
            old(self).wf(),
        ensures
            final(self).wf(),
            final(self).templates@.len() >= old(self).templates@.len(),
            forall|j: int|
                0 <= j < old(self).templates@.len() ==> final(self).templates@[j] == old(
                    self,
                ).templates@[j],
            r is Ok ==> forall|i: int|
                0 <= i < transform_templates(*t).len() && transform_templates(*t)[i].len() > 0
                    ==> final(self).holds(#[trigger] transform_templates(*t)[i]),
            r matches Err(ConfigError::InvalidTemplate { template, message })
                ==> transform_templates(*t).contains(template@) && template@.len() > 0
                && !compiles_of(template@),
            !(r matches Err(ConfigError::Malformed(_))),
    {
        let ghost all = transform_templates(*t);
        let ghost start = self.templates@;
        let mut i: usize = 0;
        while i < t.set.len()
            invariant
                self.wf(),
                i <= t.set@.len(),
                all == transform_templates(*t),
                start == old(self).templates@,
                self.templates@.len() >= start.len(),
                forall|j: int| 0 <= j < start.len() ==> self.templates@[j] == start[j],
                forall|k: int| 0 <= k < i && all[k].len() > 0 ==> self.holds(#[trigger] all[k]),
            decreases t.set@.len() - i,
        {
            assert(all[i as int] == t.set@[i as int].value@);
            let ghost before = self.templates@;
            match self.compile(&t.set[i].value) {
                Ok(()) => {},
                Err(e) => {
                    assert(all[i as int] == t.set@[i as int].value@);
                    return Err(e);
                },
            }
            assert forall|k: int| 0 <= k < i + 1 && all[k].len() > 0 implies self.holds(#[trigger] all[k]) by {
                if k < i {
                    let j = choose|j: int| 0 <= j < before.len() && #[trigger] before[j].0@ == all[k];
                    assert(self.templates@[j] == before[j]);
                }
            }
            i += 1;
        }
        let ghost nset = t.set@.len() as int;
        let mut i: usize = 0;
        while i < t.add.len()
            invariant
                self.wf(),
                i <= t.add@.len(),
                nset == t.set@.len(),
                all == transform_templates(*t),
                start == old(self).templates@,
                self.templates@.len() >= start.len(),
                forall|j: int| 0 <= j < start.len() ==> self.templates@[j] == start[j],
                forall|k: int| 0 <= k < nset + i && all[k].len() > 0 ==> self.holds(#[trigger] all[k]),
            decreases t.add@.len() - i,
        {
            assert(all[nset + i] == t.add@[i as int].value@);
            let ghost before = self.templates@;
            match self.compile(&t.add[i].value) {
                Ok(()) => {},
                Err(e) => {
                    return Err(e);
                },
            }
            assert forall|k: int| 0 <= k < nset + i + 1 && all[k].len() > 0 implies self.holds(#[trigger] all[k]) by {
                if k < nset + i {
                    let j = choose|j: int| 0 <= j < before.len() && #[trigger] before[j].0@ == all[k];
                    assert(self.templates@[j] == before[j]);
                }
            }
            i += 1;
        }
        let ghost before = self.templates@;
        if let Some(b) = &t.body {
            assert(all[nset + t.add@.len()] == b.value@);
            match self.compile(&b.value) {
                Ok(()) => {},
                Err(e) => {
                    return Err(e);
                },
            }
        }
        assert forall|k: int| 0 <= k < all.len() && all[k].len() > 0 implies self.holds(#[trigger] all[k]) by {
            if k < nset + t.add@.len() {
                let j = choose|j: int| 0 <= j < before.len() && #[trigger] before[j].0@ == all[k];
                assert(self.templates@[j] == before[j]);
            }
        }
        Ok(())
    }

    /// The position of the template with the text `source`, if it is held.
    fn find(&self, source: &str) -> (r: Option<usize>)
        ensures
            match r {
                Some(i) => i < self.templates@.len() && self.templates@[i as int].0@ == source@,
                None => !self.holds(source@),
            },
    {
        let mut i: usize = 0;
        while i < self.templates.len()
            invariant
                i <= self.templates@.len(),
                forall|j: int| 0 <= j < i ==> self.templates@[j].0@ != source@,
            decreases self.templates@.len() - i,
        {
            if text::same_text(self.templates[i].0.as_str(), source) {
                return Some(i);
            }
            i += 1;
        }
        None
    }

    /// Compiles `source` unless it is empty or already held. It is kept under
    /// a name ending in `.txt`, so that minijinja never escapes its output.
    fn compile(&mut self, source: &String) -> (r: Result<(), ConfigError>)
        requires
            old(self).wf(),
        ensures
            final(self).wf(),
            final(self).templates@.len() >= old(self).templates@.len(),
            forall|j: int|
                0 <= j < old(self).templates@.len() ==> final(self).templates@[j] == old(
                    self,
                ).templates@[j],
            r is Ok && source@.len() > 0 ==> final(self).holds(source@),
            r matches Err(ConfigError::InvalidTemplate { template, message }) ==> template@ == source@
                && source@.len() > 0 && !compiles_of(source@),
            !(r matches Err(ConfigError::Malformed(_))),
    {
        if source.as_str().is_empty() {
            return Ok(());
        }
        if let Some(_) = self.find(source.as_str()) {
            return Ok(());
        }
        let name = source.clone().concat(".txt");
        match compile_template(&mut self.env, &name, source) {
            Ok(names) => {
                let ghost n = self.templates@.len();
                self.templates.push((source.clone(), name, names));
                assert(self.templates@[n as int].0@ == source@);
                Ok(())
            },
            Err(e) => Err(ConfigError::InvalidTemplate { template: source.clone(), message: template_error_text(&e) }),
        }
    }

    /// Renders the template with the text `template` against `ctx`.
    ///
    /// An empty template renders to the empty text. Where the body was not
    /// parsed as JSON (`parsed_body_as_json` false), a template that reads any
    /// variable other than a template function fails with
    /// `UndeclaredJsonVariables`, naming those variables, before it is
    /// evaluated. A template that the registry does not hold, or whose
    /// evaluation fails, gives `Failed`.
    pub fn render(&self, template: &str, ctx: &RenderContext, parsed_body_as_json: bool) -> (r: Result<
        String,
        RenderError,
    >)
        requires
            self.wf(),
        ensures
            render_post(*self, template@, parsed_body_as_json, r),
    {
        if template.is_empty() {
            return Ok(String::new());
        }
        let found = self.find(template);
        let i = match found {
            Some(i) => i,
            None => {
                let message = "template is not registered: ".to_string().concat(template);
                return Err(RenderError::Failed(message));
            },
        };
        if !parsed_body_as_json {
            let names = &self.templates[i].2;
            let undeclared = undeclared_names(names);
            proof {
                lemma_undeclared_members(views(names@));
                assert(views(names@).to_set() == free_variables_of(template@));
            }
            if undeclared.len() > 0 {
                proof {
                    assert(views(undeclared@).contains(views(undeclared@)[0]));
                }
                return Err(RenderError::UndeclaredJsonVariables(undeclared));
            }
            proof {
                assert forall|n: Seq<char>| free_variables_of(template@).contains(n)
                    implies is_template_function(n) by {
                    assert(views(names@).contains(n));
                    if !is_template_function(n) {
                        assert(views(undeclared@).contains(n));
                    }
                }
            }
        }
        match render_compiled(&self.env, self.templates[i].1.as_str(), ctx) {
            Ok(s) => Ok(s),
            Err(e) => Err(RenderError::Failed(template_error_text(&e))),
        }
    }
}

} // verus!
