//! Command declarations: their kinds, how a declaration is compiled into a
//! command, and how a message is matched against one.
use vstd::prelude::*;

use crate::env::{
    build_static_env, copy_strings, env_key, env_key_of, match_key, set_string, static_env,
    str_value, string_env,
};
use crate::json::{
    array_field, bool_field, entries_map, object_field, read_array_from_json_object,
    read_bool_from_json_object, read_object_from_json_object, read_string_from_json_object,
    keys_unique, set_entry, string_field, strings_only, Json,
};
use crate::text::{field_text, to_field_text};
use std::sync::Arc;

verus! {

/// What str::to_lowercase gives for a string.
pub uninterp spec fn lower_of(s: Seq<char>) -> Seq<char>;

/// Whether regex::Regex::new accepts a pattern.
pub uninterp spec fn pattern_compiles(p: Seq<char>) -> bool;

/// The pattern that a compiled regex was built from.
pub uninterp spec fn pattern_source(re: regex::Regex) -> Seq<char>;

/// Whether a regex was built by regex::Regex::new, with the default options.
pub uninterp spec fn built_by_new(re: regex::Regex) -> bool;

/// What searching `message` with the regex built from `pattern` yields: none
/// when it does not match; else the whole match, and for each capture group
/// in order its name, if it has one, and its text, if it took part.
pub uninterp spec fn regex_captures_of(pattern: Seq<char>, message: Seq<char>) -> Option<
    (Seq<char>, Seq<(Option<Seq<char>>, Option<Seq<char>>)>),
>;

/// A compiled regular expression of the regex crate, carried as it is.
#[verifier::external_type_specification]
#[verifier::external_body]
pub struct ExRegex(regex::Regex);

/// Relies on str::to_lowercase.
#[verifier::external_body]
fn lowercase(s: &str) -> (r: String)
    ensures
        r@ == lower_of(s@),
{
    s.to_lowercase()
}

/// Relies on regex::Regex::new: it builds a regex from a pattern, or fails
/// on an invalid one; the regex keeps the pattern it was built from.
#[verifier::external_body]
fn compile_pattern(p: &str) -> (r: Option<regex::Regex>)
    ensures
        r is Some == pattern_compiles(p@),
        r matches Some(re) ==> pattern_source(re) == p@ && built_by_new(re),
{
    regex::Regex::new(p).ok()
}

/// Relies on regex::Regex::as_str: the pattern the regex was built from.
#[verifier::external_body]
fn regex_source(re: &regex::Regex) -> (r: &str)
    ensures
        r@ == pattern_source(*re),
{
    re.as_str()
}

/// The captures as plain values.
pub open spec fn captures_view(c: Option<(String, Vec<(Option<String>, Option<String>)>)>) -> Option<
    (Seq<char>, Seq<(Option<Seq<char>>, Option<Seq<char>>)>),
> {
    match c {
        None => None,
        Some((whole, groups)) => Some(
            (
                whole@,
                groups@.map_values(
                    |g: (Option<String>, Option<String>)|
                        (
                            match g.0 {
                                Some(n) => Some(n@),
                                None => None,
                            },
                            match g.1 {
                                Some(t) => Some(t@),
                                None => None,
                            },
                        ),
                ),
            ),
        ),
    }
}

/// Relies on regex::Regex::captures, capture_names and Captures::iter: the
/// leftmost match in `message`, and for each group its name and its text.
/// With the default options these depend on the pattern and the message.
#[verifier::external_body]
fn regex_captures(re: &regex::Regex, message: &str) -> (r: Option<
    (String, Vec<(Option<String>, Option<String>)>),
>)
    requires
        built_by_new(*re),
    ensures
        captures_view(r) == regex_captures_of(pattern_source(*re), message@),
{
    re.captures(message).map(|caps| (
        String::from(caps.get_match().as_str()),
        re.capture_names().zip(caps.iter()).map(|(n, m)| (
            n.map(String::from),
            m.map(|m| String::from(m.as_str())),
        )).collect(),
    ))
}

/// A pattern compiled with the default options. Only `compile` makes one.
#[derive(Debug)]
pub struct Pattern {
    re: regex::Regex,
}

impl Pattern {
    #[verifier::type_invariant]
    closed spec fn inv(self) -> bool {
        built_by_new(self.re)
    }

    /// The text the pattern was compiled from.
    pub closed spec fn source(self) -> Seq<char> {
        pattern_source(self.re)
    }

    /// Compiles `p`, or gives none when it is no valid pattern.
    pub fn compile(p: &str) -> (r: Option<Pattern>)
        ensures
            r is Some == pattern_compiles(p@),
            r matches Some(x) ==> x.source() == p@,
    {
        match compile_pattern(p) {
            Some(re) => Some(Pattern { re }),
            None => None,
        }
    }

    /// The text the pattern was compiled from.
    pub fn as_text(&self) -> (r: String)
        ensures
            r@ == self.source(),
    {
        String::from_str(regex_source(&self.re))
    }

    /// Searches `message`: none when it does not match; else the whole
    /// match, and for each group its name, if any, and its text, if it took
    /// part.
    pub fn captures(&self, message: &str) -> (r: Option<(String, Vec<(Option<String>, Option<String>)>)>)
        ensures
            captures_view(r) == regex_captures_of(self.source(), message@),
    {
        proof {
            use_type_invariant(self);
        }
        regex_captures(&self.re, message)
    }
}

/// The reply of an `echo` command.
#[derive(Debug)]
pub struct WXWorkCommandEcho {
    pub echo: String,
}

/// The text around the listing of a `help` command.
#[derive(Debug)]
pub struct WXWorkCommandHelp {
    pub prefix: String,
    pub suffix: String,
}

/// How the output of a spawned process is sent back.
#[derive(Debug, Clone, Copy, PartialEq, Eq, Structural)]
pub enum WXWorkCommandSpawnOutputType {
    Markdown,
    Text,
    Image,
}

/// A process to run: the `exec` field of a declaration names the program.
#[derive(Debug)]
pub struct WXWorkCommandSpawn {
    pub program: String,
    pub args: Vec<String>,
    pub cwd: String,
    pub output_type: WXWorkCommandSpawnOutputType,
}

/// The method of an outbound HTTP request; `Auto` leaves it to the client.
#[derive(Debug, Clone, Copy, PartialEq, Eq, Structural)]
pub enum WXWorkCommandHttpMethod {
    Auto,
    Get,
    Post,
    Delete,
    Head,
    Put,
}

/// An outbound HTTP request. Each header name occurs once.
#[derive(Debug)]
pub struct WXWorkCommandHttp {
    pub url: String,
    pub echo: String,
    pub post: String,
    pub method: WXWorkCommandHttpMethod,
    pub content_type: String,
    pub headers: Vec<(String, String)>,
}

/// What a command does.
#[derive(Debug)]
pub enum WXWorkCommandData {
    ECHO(Arc<WXWorkCommandEcho>),
    SPAWN(Arc<WXWorkCommandSpawn>),
    HTTP(Arc<WXWorkCommandHttp>),
    HELP(Arc<WXWorkCommandHelp>),
}

/// The output type that a lower-cased name stands for; an unknown name
/// stands for `Markdown`.
pub open spec fn output_type_of(lowered: Seq<char>) -> WXWorkCommandSpawnOutputType {
    if lowered == "text"@ {
        WXWorkCommandSpawnOutputType::Text
    } else if lowered == "image"@ {
        WXWorkCommandSpawnOutputType::Image
    } else {
        WXWorkCommandSpawnOutputType::Markdown
    }
}

/// The method that a lower-cased name stands for; an unknown name stands
/// for `Auto`.
pub open spec fn method_of(lowered: Seq<char>) -> WXWorkCommandHttpMethod {
    if lowered == "get"@ {
        WXWorkCommandHttpMethod::Get
    } else if lowered == "post"@ {
        WXWorkCommandHttpMethod::Post
    } else if lowered == "delete"@ {
        WXWorkCommandHttpMethod::Delete
    } else if lowered == "put"@ {
        WXWorkCommandHttpMethod::Put
    } else if lowered == "head"@ {
        WXWorkCommandHttpMethod::Head
    } else {
        WXWorkCommandHttpMethod::Auto
    }
}

/// The output type named by `name`, in any case.
pub open spec fn output_type_named(name: Seq<char>) -> WXWorkCommandSpawnOutputType {
    output_type_of(lower_of(name))
}

/// The method named by `name`, in any case.
pub open spec fn method_named(name: Seq<char>) -> WXWorkCommandHttpMethod {
    method_of(lower_of(name))
}

/// Decodes a lower-cased output type name.
pub fn output_type_from_lowercase(lowered: &str) -> (r: WXWorkCommandSpawnOutputType)
    ensures
        r == output_type_of(lowered@),
{
    let l = String::from_str(lowered);
    if l == String::from_str("text") {
        WXWorkCommandSpawnOutputType::Text
    } else if l == String::from_str("image") {
        WXWorkCommandSpawnOutputType::Image
    } else {
        WXWorkCommandSpawnOutputType::Markdown
    }
}

/// Decodes a lower-cased method name.
pub fn method_from_lowercase(lowered: &str) -> (r: WXWorkCommandHttpMethod)
    ensures
        r == method_of(lowered@),
{
    let l = String::from_str(lowered);
    if l == String::from_str("get") {
        WXWorkCommandHttpMethod::Get
    } else if l == String::from_str("post") {
        WXWorkCommandHttpMethod::Post
    } else if l == String::from_str("delete") {
        WXWorkCommandHttpMethod::Delete
    } else if l == String::from_str("put") {
        WXWorkCommandHttpMethod::Put
    } else if l == String::from_str("head") {
        WXWorkCommandHttpMethod::Head
    } else {
        WXWorkCommandHttpMethod::Auto
    }
}

/// Decodes an output type name in any case.
pub fn parse_output_type(name: &str) -> (r: WXWorkCommandSpawnOutputType)
    ensures
        r == output_type_named(name@),
{
    let l = lowercase(name);
    output_type_from_lowercase(l.as_str())
}

/// Decodes a method name in any case.
pub fn parse_http_method(name: &str) -> (r: WXWorkCommandHttpMethod)
    ensures
        r == method_named(name@),
{
    let l = lowercase(name);
    method_from_lowercase(l.as_str())
}

/// Names that differ only in case name the same output type and the same
/// method.
pub proof fn lemma_names_ignore_case(a: Seq<char>, b: Seq<char>)
    requires
        lower_of(a) == lower_of(b),
    ensures
        output_type_named(a) == output_type_named(b),
        method_named(a) == method_named(b),
{
}

/// The text of `o`, or `d` when there is none.
pub open spec fn or_text(o: Option<Seq<char>>, d: Seq<char>) -> Seq<char> {
    match o {
        Some(t) => t,
        None => d,
    }
}

/// The output type that a declaration asks for.
pub open spec fn declared_output_type(j: Json) -> WXWorkCommandSpawnOutputType {
    match string_field(j, "output_type"@) {
        Some(t) => output_type_named(t),
        None => WXWorkCommandSpawnOutputType::Markdown,
    }
}

/// The method that a declaration asks for.
pub open spec fn declared_method(j: Json) -> WXWorkCommandHttpMethod {
    match string_field(j, "method"@) {
        Some(t) => method_named(t),
        None => WXWorkCommandHttpMethod::Auto,
    }
}

/// The arguments of a declaration, as text.
pub open spec fn declared_args(j: Json) -> Seq<Seq<char>> {
    match array_field(j, "args"@) {
        Some(items) => items.map_values(|v: Json| field_text(v)),
        None => Seq::empty(),
    }
}

/// The headers that entries declare, as text; a later entry for a name
/// stands over an earlier one.
pub open spec fn header_map(entries: Seq<(String, Json)>) -> Map<Seq<char>, Seq<char>>
    decreases entries.len(),
{
    if entries.len() == 0 {
        Map::empty()
    } else {
        header_map(entries.drop_last()).insert(entries.last().0@, field_text(entries.last().1))
    }
}

/// The headers of a declaration, as text.
pub open spec fn declared_headers(j: Json) -> Map<Seq<char>, Seq<char>> {
    match object_field(j, "headers"@) {
        Some(entries) => header_map(entries),
        None => Map::empty(),
    }
}

/// The headers as a mapping of text.
pub open spec fn headers_view(h: Seq<(String, String)>) -> Map<Seq<char>, Seq<char>> {
    entries_map(h).map_values(|v: String| v@)
}

/// The strings as text.
pub open spec fn texts_view(v: Seq<String>) -> Seq<Seq<char>> {
    v.map_values(|s: String| s@)
}

/// Whether a declaration can be turned into a command: it is an object
/// with a known `type`, a `spawn` has `exec` and an `http` has `url`.
pub open spec fn declaration_accepted(j: Json) -> bool {
    &&& j is Object
    &&& match string_field(j, "type"@) {
        Some(t) => t == "echo"@ || t == "help"@ || (t == "spawn"@ && string_field(j, "exec"@) is Some)
            || (t == "http"@ && string_field(j, "url"@) is Some),
        None => false,
    }
}

/// `d` is what declaration `j` describes.
pub open spec fn data_declared(d: WXWorkCommandData, j: Json) -> bool {
    let t = or_text(string_field(j, "type"@), Seq::empty());
    match d {
        WXWorkCommandData::ECHO(e) => t == "echo"@ && e.echo@ == or_text(
            string_field(j, "echo"@),
            "Ok"@,
        ),
        WXWorkCommandData::SPAWN(sp) => {
            &&& t == "spawn"@
            &&& string_field(j, "exec"@) == Some(sp.program@)
            &&& texts_view(sp.args@) == declared_args(j)
            &&& sp.cwd@ == or_text(string_field(j, "cwd"@), Seq::empty())
            &&& sp.output_type == declared_output_type(j)
        },
        WXWorkCommandData::HTTP(h) => {
            &&& t == "http"@
            &&& string_field(j, "url"@) == Some(h.url@)
            &&& h.echo@ == or_text(string_field(j, "echo"@), "Ok"@)
            &&& h.post@ == or_text(string_field(j, "post"@), "Ok"@)
            &&& h.method == declared_method(j)
            &&& h.content_type@ == or_text(string_field(j, "content_type"@), Seq::empty())
            &&& headers_view(h.headers@) == declared_headers(j)
            &&& keys_unique(h.headers@)
        },
        WXWorkCommandData::HELP(h) => {
            &&& t == "help"@
            &&& h.prefix@ == or_text(string_field(j, "prefix"@), Seq::empty())
            &&& h.suffix@ == or_text(string_field(j, "suffix"@), Seq::empty())
        },
    }
}

/// Reads the argument list of a declaration.
fn read_args(json: &Json) -> (r: Vec<String>)
    ensures
        texts_view(r@) == declared_args(*json),
{
    let mut args: Vec<String> = Vec::new();
    if let Some(arr) = read_array_from_json_object(json, "args") {
        let mut i: usize = 0;
        while i < arr.len()
            invariant
                i <= arr.len(),
                texts_view(args@) == arr@.subrange(0, i as int).map_values(|v: Json| field_text(v)),
            decreases arr.len() - i,
        {
            let t = to_field_text(&arr[i]);
            let ghost before = args@;
            args.push(t);
            assert(arr@.subrange(0, i + 1) =~= arr@.subrange(0, i as int).push(arr@[i as int]));
            assert(texts_view(args@) =~= texts_view(before).push(t@));
            i = i + 1;
            assert(texts_view(args@) =~= arr@.subrange(0, i as int).map_values(|v: Json| field_text(v)));
        }
        assert(arr@.subrange(0, arr.len() as int) =~= arr@);
    } else {
        assert(texts_view(args@) =~= Seq::empty());
    }
    args
}

/// Reads the headers of a declaration.
fn read_headers(json: &Json) -> (r: Vec<(String, String)>)
    ensures
        headers_view(r@) == declared_headers(*json),
        keys_unique(r@),
{
    let mut headers: Vec<(String, String)> = Vec::new();
    assert(headers_view(headers@) =~= Map::empty());
    if let Some(m) = read_object_from_json_object(json, "headers") {
        let mut i: usize = 0;
        while i < m.len()
            invariant
                i <= m.len(),
                headers_view(headers@) == header_map(m@.subrange(0, i as int)),
                keys_unique(headers@),
            decreases m.len() - i,
        {
            assert(m@.subrange(0, i + 1).drop_last() =~= m@.subrange(0, i as int));
            let k = m[i].0.clone();
            let t = to_field_text(&m[i].1);
            let ghost before = headers@;
            let ghost key = k@;
            let ghost text = t@;
            set_entry(&mut headers, k, t);
            assert(headers_view(headers@) =~= headers_view(before).insert(key, text));
            i = i + 1;
        }
        assert(m@.subrange(0, m.len() as int) =~= m@);
    }
    headers
}

/// A string field of a declaration, or `d` when it has none.
fn read_string_or(json: &Json, name: &str, d: &str) -> (r: String)
    ensures
        r@ == or_text(string_field(*json, name@), d@),
{
    match read_string_from_json_object(json, name) {
        Some(x) => x,
        None => String::from_str(d),
    }
}

/// The type names are distinct, and the empty literal is empty.
proof fn lemma_literals()
    ensures
        "echo"@ != "spawn"@,
        "echo"@ != "http"@,
        "echo"@ != "help"@,
        "spawn"@ != "http"@,
        "spawn"@ != "help"@,
        "http"@ != "help"@,
        ""@ == Seq::<char>::empty(),
{
    reveal_strlit("");
    reveal_strlit("echo");
    reveal_strlit("spawn");
    reveal_strlit("http");
    reveal_strlit("help");
    assert("echo"@.len() == 4);
    assert("spawn"@.len() == 5);
    assert("http"@[0] != "help"@[0] || "http"@[1] != "help"@[1]);
}

/// Reads what a declaration describes, if it is accepted.
pub fn parse_data(json: &Json) -> (r: Option<WXWorkCommandData>)
    ensures
        r is Some == declaration_accepted(*json),
        r matches Some(d) ==> data_declared(d, *json),
{
    proof {
        lemma_literals();
    }
    if !json.is_object() {
        return None;
    }
    let kind = match read_string_from_json_object(json, "type") {
        Some(x) => x,
        None => return None,
    };
    if kind == String::from_str("echo") {
        Some(WXWorkCommandData::ECHO(Arc::new(WXWorkCommandEcho { echo: read_string_or(json, "echo", "Ok") })))
    } else if kind == String::from_str("spawn") {
        let program = match read_string_from_json_object(json, "exec") {
            Some(x) => x,
            None => return None,
        };
        let args = read_args(json);
        let cwd = read_string_or(json, "cwd", "");
        let output_type = match read_string_from_json_object(json, "output_type") {
            Some(x) => parse_output_type(x.as_str()),
            None => WXWorkCommandSpawnOutputType::Markdown,
        };
        Some(WXWorkCommandData::SPAWN(Arc::new(WXWorkCommandSpawn { program, args, cwd, output_type })))
    } else if kind == String::from_str("http") {
        let url = match read_string_from_json_object(json, "url") {
            Some(x) => x,
            None => return None,
        };
        let echo = read_string_or(json, "echo", "Ok");
        let post = read_string_or(json, "post", "Ok");
        let method = match read_string_from_json_object(json, "method") {
            Some(x) => parse_http_method(x.as_str()),
            None => WXWorkCommandHttpMethod::Auto,
        };
        let content_type = read_string_or(json, "content_type", "");
        let headers = read_headers(json);
        Some(WXWorkCommandData::HTTP(Arc::new(WXWorkCommandHttp { url, echo, post, method, content_type, headers })))
    } else if kind == String::from_str("help") {
        let prefix = read_string_or(json, "prefix", "");
        let suffix = read_string_or(json, "suffix", "");
        Some(WXWorkCommandData::HELP(Arc::new(WXWorkCommandHelp { prefix, suffix })))
    } else {
        None
    }
}

/// A compiled command: what it does, the pattern that selects it, and the
/// environment that it always exposes.
#[derive(Debug)]
pub struct WXWorkCommand {
    pub data: WXWorkCommandData,
    pub envs: Json,
    pub rule: Pattern,
    pub hidden: bool,
    pub description: Arc<String>,
}

/// A command shared between readers.
pub type WXWorkCommandPtr = Arc<WXWorkCommand>;

/// A table of commands, in the order they were declared.
pub type WXWorkCommandList = Vec<WXWorkCommandPtr>;

/// The environment of one match: an object of strings, or null when the
/// message did not match.
#[derive(Debug)]
pub struct WXWorkCommandMatch(pub Json);

/// The environment that `env` of a declaration declares.
pub open spec fn declared_env(j: Json) -> Map<Seq<char>, Seq<char>> {
    match object_field(j, "env"@) {
        Some(entries) => static_env(entries),
        None => Map::empty(),
    }
}

/// `base` with each named group that took part set under its key, in order.
pub open spec fn with_groups(
    base: Map<Seq<char>, Seq<char>>,
    groups: Seq<(Option<Seq<char>>, Option<Seq<char>>)>,
) -> Map<Seq<char>, Seq<char>>
    decreases groups.len(),
{
    if groups.len() == 0 {
        base
    } else {
        let m = with_groups(base, groups.drop_last());
        match groups.last() {
            (Some(n), Some(t)) => m.insert(env_key(n), t),
            _ => m,
        }
    }
}

/// The environment of a match of `message` against `pattern`, on top of
/// `base`: none when it does not match; else the whole match under the
/// bare prefix, then each named group that took part under its key.
pub open spec fn captured_env(
    base: Map<Seq<char>, Seq<char>>,
    pattern: Seq<char>,
    message: Seq<char>,
) -> Option<Map<Seq<char>, Seq<char>>> {
    match regex_captures_of(pattern, message) {
        None => None,
        Some((whole, groups)) => Some(with_groups(base.insert(match_key(), whole), groups)),
    }
}

impl WXWorkCommand {
    /// The pattern that selects this command: the name it was declared under.
    pub open spec fn pattern(&self) -> Seq<char> {
        self.rule.source()
    }

    /// The environment is an object of strings.
    pub open spec fn wf(&self) -> bool {
        self.envs matches Json::Object(e) && strings_only(e@)
    }

    /// Whether the environment is an object of strings, as `new` leaves it.
    pub fn is_well_formed(&self) -> (r: bool)
        ensures
            r == self.wf(),
    {
        match &self.envs {
            Json::Object(e) => {
                let mut i: usize = 0;
                while i < e.len()
                    invariant
                        i <= e.len(),
                        self.envs == Json::Object(*e),
                        forall|j: int| 0 <= j < i ==> (#[trigger] e@[j]).1 is Str,
                    decreases e.len() - i,
                {
                    match &e[i].1 {
                        Json::Str(_) => {},
                        _ => {
                            assert(!(e@[i as int].1 is Str));
                            return false;
                        },
                    }
                    i = i + 1;
                }
                true
            },
            _ => false,
        }
    }

    /// The environment that this command always exposes.
    pub open spec fn env_view(&self) -> Map<Seq<char>, Seq<char>> {
        string_env(self.envs).unwrap()
    }

    /// This command is what declaration `j` under `name` compiles to.
    pub open spec fn describes(&self, name: Seq<char>, j: Json) -> bool {
        &&& self.wf()
        &&& self.pattern() == name
        &&& data_declared(self.data, j)
        &&& string_env(self.envs) == Some(declared_env(j))
        &&& self.hidden == match bool_field(j, "hidden"@) {
            Some(b) => b,
            None => false,
        }
        &&& self.description@ == or_text(string_field(j, "description"@), Seq::empty())
    }

    /// Compiles the declaration `json` of the command named `cmd_name`. The
    /// name is the pattern that selects the command; a declaration that does
    /// not say what to do, or a name that is no valid pattern, gives none.
    pub fn new(cmd_name: &str, json: &Json) -> (r: Option<WXWorkCommand>)
        ensures
            r is Some == (pattern_compiles(cmd_name@) && declaration_accepted(*json)),
            r matches Some(c) ==> c.describes(cmd_name@, *json),
    {
        let rule = match Pattern::compile(cmd_name) {
            Some(x) => x,
            None => return None,
        };
        let data = match parse_data(json) {
            Some(d) => d,
            None => return None,
        };
        let envs = match read_object_from_json_object(json, "env") {
            Some(entries) => build_static_env(entries),
            None => {
                let e: Vec<(String, Json)> = Vec::new();
                assert(entries_map(e@).map_values(|v: Json| str_value(v))
                    =~= Map::empty());
                Json::Object(e)
            },
        };
        let hidden = match read_bool_from_json_object(json, "hidden") {
            Some(x) => x,
            None => false,
        };
        let description = match read_string_from_json_object(json, "description") {
            Some(x) => Arc::new(x),
            None => Arc::new(String::new()),
        };
        Some(WXWorkCommand { data, envs, rule, hidden, description })
    }

    /// The name the command was declared under.
    pub fn name(&self) -> (r: Arc<String>)
        ensures
            r@ == self.pattern(),
    {
        Arc::new(self.rule.as_text())
    }

    /// Matches `message` against this command. When it matches, the result
    /// holds the command's environment, the whole match under the bare
    /// prefix, and each named group that took part under its key.
    pub fn try_capture(&self, message: &str) -> (r: WXWorkCommandMatch)
        requires
            self.wf(),
        ensures
            r.captures(*self, message@),
    {
        let caps = match self.rule.captures(message) {
            Some(x) => x,
            None => return WXWorkCommandMatch(Json::Null),
        };
        let ghost groups_view = captures_view(Some(caps))->Some_0.1;
        let mut out = match &self.envs {
            Json::Object(e) => copy_strings(e),
            _ => Vec::new(),
        };
        set_string(&mut out, String::from_str("WXWORK_ROBOT_CMD"), caps.0.clone());
        let ghost base = entries_map(out@).map_values(|v: Json| str_value(v));
        assert(groups_view.subrange(0, 0) =~= Seq::empty());
        let mut i: usize = 0;
        while i < caps.1.len()
            invariant
                i <= caps.1.len(),
                groups_view == captures_view(Some(caps))->Some_0.1,
                strings_only(out@),
                entries_map(out@).map_values(|v: Json| str_value(v))
                    == with_groups(base, groups_view.subrange(0, i as int)),
            decreases caps.1.len() - i,
        {
            assert(groups_view.subrange(0, i + 1).drop_last() =~= groups_view.subrange(0, i as int));
            let (n, t) = &caps.1[i];
            if let Some(name) = n {
                if let Some(text) = t {
                    let key = env_key_of(name.as_str());
                    set_string(&mut out, key, text.clone());
                }
            }
            i = i + 1;
        }
        assert(groups_view.subrange(0, caps.1.len() as int) =~= groups_view);
        WXWorkCommandMatch(Json::Object(out))
    }

    /// The description the command was declared with.
    pub fn description(&self) -> (r: Arc<String>)
        ensures
            r@ == self.description@,
    {
        Arc::new((*self.description).clone())
    }

    /// Whether the command is left out of listings.
    pub fn is_hidden(&self) -> (r: bool)
        ensures
            r == self.hidden,
    {
        self.hidden
    }

    /// Compiles every entry of the object `json`, in order, leaving out the
    /// entries that do not compile.
    pub fn parse(json: &Json) -> (r: WXWorkCommandList)
        requires
            json matches Json::Object(e) ==> keys_unique(e@),
        ensures
            forall|i: int, j: int| 0 <= i < j < r@.len() ==> r@[i].pattern() != r@[j].pattern(),
            match *json {
                Json::Object(e) => {
                    &&& r@.len() == accepted_indices(e@).len()
                    &&& forall|i: int|
                        0 <= i < r@.len() ==> #[trigger] r@[i].describes(
                            e@[accepted_indices(e@)[i]].0@,
                            e@[accepted_indices(e@)[i]].1,
                        )
                },
                _ => r@.len() == 0,
            },
    {
        let mut ret: WXWorkCommandList = Vec::new();
        if let Json::Object(kvs) = json {
            let mut i: usize = 0;
            while i < kvs.len()
                invariant
                    i <= kvs.len(),
                    ret@.len() == accepted_indices(kvs@.subrange(0, i as int)).len(),
                    forall|j: int|
                        0 <= j < ret@.len() ==> #[trigger] ret@[j].describes(
                            kvs@[accepted_indices(kvs@.subrange(0, i as int))[j]].0@,
                            kvs@[accepted_indices(kvs@.subrange(0, i as int))[j]].1,
                        ),
                decreases kvs.len() - i,
            {
                let ghost prefix = kvs@.subrange(0, i + 1);
                proof {
                    assert(prefix.drop_last() =~= kvs@.subrange(0, i as int));
                }
                match WXWorkCommand::new(kvs[i].0.as_str(), &kvs[i].1) {
                    Some(cmd) => {
                        ret.push(Arc::new(cmd));
                    },
                    None => {},
                }
                i = i + 1;
            }
            assert(kvs@.subrange(0, kvs.len() as int) =~= kvs@);
            proof {
                lemma_indices_increasing(kvs@);
                lemma_indices_bounded(kvs@);
                let idx = accepted_indices(kvs@);
                assert forall|a: int, b: int| 0 <= a < b < ret@.len() implies ret@[a].pattern()
                    != ret@[b].pattern() by {
                    assert(ret@[a].describes(kvs@[idx[a]].0@, kvs@[idx[a]].1));
                    assert(ret@[b].describes(kvs@[idx[b]].0@, kvs@[idx[b]].1));
                }
            }
        }
        ret
    }
}

/// Whether the entry `e` compiles to a command.
pub open spec fn accepted(e: (String, Json)) -> bool {
    pattern_compiles(e.0@) && declaration_accepted(e.1)
}

/// The indices of the entries that compile to a command, in order.
pub open spec fn accepted_indices(entries: Seq<(String, Json)>) -> Seq<int>
    decreases entries.len(),
{
    if entries.len() == 0 {
        Seq::empty()
    } else {
        let prev = accepted_indices(entries.drop_last());
        if accepted(entries.last()) {
            prev.push(entries.len() - 1)
        } else {
            prev
        }
    }
}

/// The table keeps exactly the entries that compile: an entry without a
/// `type` is left out, and every sibling that compiles is kept.
pub proof fn lemma_table_keeps_accepted(entries: Seq<(String, Json)>, k: int)
    requires
        0 <= k < entries.len(),
    ensures
        accepted_indices(entries).contains(k) == accepted(entries[k]),
        string_field(entries[k].1, "type"@) is None ==> !accepted_indices(entries).contains(k),
    decreases entries.len(),
{
    let n = entries.len();
    let prev = accepted_indices(entries.drop_last());
    let idx = accepted_indices(entries);
    lemma_indices_bounded(entries.drop_last());
    if k < n - 1 {
        lemma_table_keeps_accepted(entries.drop_last(), k);
        assert(entries.drop_last()[k] == entries[k]);
    }
    if prev.contains(k) {
        let w = choose|w: int| 0 <= w < prev.len() && prev[w] == k;
        assert(idx[w] == k);
    }
    if idx.contains(k) {
        let w = choose|w: int| 0 <= w < idx.len() && idx[w] == k;
        if w < prev.len() {
            assert(prev[w] == k);
        }
    }
    if k == n - 1 && accepted(entries.last()) {
        assert(idx[prev.len() as int] == k);
    }
}

/// The table keeps entries in the order they come.
pub proof fn lemma_indices_increasing(entries: Seq<(String, Json)>)
    ensures
        forall|a: int, b: int|
            0 <= a < b < accepted_indices(entries).len() ==> accepted_indices(entries)[a]
                < accepted_indices(entries)[b],
    decreases entries.len(),
{
    if entries.len() > 0 {
        lemma_indices_increasing(entries.drop_last());
        lemma_indices_bounded(entries.drop_last());
        let prev = accepted_indices(entries.drop_last());
        let idx = accepted_indices(entries);
        assert forall|a: int, b: int| 0 <= a < b < idx.len() implies idx[a] < idx[b] by {
            if b < prev.len() {
                assert(idx[a] == prev[a] && idx[b] == prev[b]);
            } else {
                assert(idx[a] == prev[a]);
                assert(0 <= prev[a] < entries.len() - 1);
            }
        }
    }
}

/// In a table whose names are distinct, a declaration without a `type`
/// gives no command under its name, while every sibling that compiles
/// gives one.
pub proof fn lemma_missing_type_left_out(entries: Seq<(String, Json)>, k: int)
    requires
        keys_unique(entries),
        0 <= k < entries.len(),
        string_field(entries[k].1, "type"@) is None,
    ensures
        forall|i: int|
            0 <= i < accepted_indices(entries).len() ==> entries[#[trigger] accepted_indices(
                entries,
            )[i]].0@ != entries[k].0@,
        forall|k2: int|
            0 <= k2 < entries.len() && accepted(#[trigger] entries[k2]) ==> accepted_indices(
                entries,
            ).contains(k2),
{
    lemma_indices_bounded(entries);
    let idx = accepted_indices(entries);
    assert forall|i: int| 0 <= i < idx.len() implies entries[#[trigger] idx[i]].0@ != entries[k].0@ by {
        if idx[i] == k {
            lemma_table_keeps_accepted(entries, k);
            assert(idx.contains(k));
        }
    }
    assert forall|k2: int| 0 <= k2 < entries.len() && accepted(#[trigger] entries[k2]) implies idx.contains(
        k2,
    ) by {
        lemma_table_keeps_accepted(entries, k2);
    }
}

/// Every index that the table keeps is an index of `entries`.
pub proof fn lemma_indices_bounded(entries: Seq<(String, Json)>)
    ensures
        forall|j: int|
            0 <= j < accepted_indices(entries).len() ==> 0 <= #[trigger] accepted_indices(entries)[j]
                < entries.len(),
    decreases entries.len(),
{
    if entries.len() > 0 {
        lemma_indices_bounded(entries.drop_last());
        let prev = accepted_indices(entries.drop_last());
        assert forall|j: int| 0 <= j < accepted_indices(entries).len() implies 0
            <= #[trigger] accepted_indices(entries)[j] < entries.len() by {
            if j < prev.len() {
                assert(accepted_indices(entries)[j] == prev[j]);
            }
        }
    }
}

/// A `spawn` declaration is accepted exactly when it names `exec`, and an
/// `http` declaration exactly when it names `url`.
pub proof fn lemma_required_fields(j: Json)
    ensures
        string_field(j, "type"@) == Some("spawn"@) ==> (declaration_accepted(j) == string_field(
            j,
            "exec"@,
        ) is Some),
        string_field(j, "type"@) == Some("http"@) ==> (declaration_accepted(j) == string_field(
            j,
            "url"@,
        ) is Some),
{
    lemma_literals();
}

impl WXWorkCommandMatch {
    /// This is the result of matching `message` against `cmd`: null when it
    /// does not match, else the environment of the match.
    pub open spec fn captures(&self, cmd: WXWorkCommand, message: Seq<char>) -> bool {
        match captured_env(cmd.env_view(), cmd.pattern(), message) {
            None => self.0 is Null,
            Some(m) => string_env(self.0) == Some(m),
        }
    }

    /// Whether the message matched.
    pub fn has_result(&self) -> (r: bool)
        ensures
            r == self.0 is Object,
    {
        self.0.is_object()
    }

    /// The environment of the match.
    pub fn ref_json(&self) -> (r: &Json)
        ensures
            *r == self.0,
    {
        &self.0
    }

    /// The environment of the match, to change in place.
    pub fn mut_json(&mut self) -> (r: &mut Json)
        ensures
            *r == old(self).0,
            final(self).0 == *final(r),
    {
        &mut self.0
    }
}

/// Matching is repeatable: two results of matching one message against one
/// command are both null or hold the same environment, and a message that
/// does not match gives null every time.
pub proof fn lemma_capture_repeatable(
    cmd: WXWorkCommand,
    message: Seq<char>,
    a: WXWorkCommandMatch,
    b: WXWorkCommandMatch,
)
    requires
        a.captures(cmd, message),
        b.captures(cmd, message),
    ensures
        a.0 is Null == b.0 is Null,
        string_env(a.0) == string_env(b.0),
        captured_env(cmd.env_view(), cmd.pattern(), message) is None ==> a.0 is Null && b.0 is Null,
{
}

/// What a listing shows for a command: nothing for a hidden one, else its
/// description, or its name when the description is empty.
pub fn get_command_description(cmd: &WXWorkCommandPtr) -> (r: Option<Arc<String>>)
    ensures
        cmd.hidden ==> r is None,
        !cmd.hidden ==> r is Some && r->Some_0@ == if cmd.description@.len() > 0 {
            cmd.description@
        } else {
            cmd.pattern()
        },
{
    if cmd.is_hidden() {
        None
    } else {
        let desc = cmd.description();
        if !desc.as_str().is_empty() {
            Some(desc)
        } else {
            Some(cmd.name())
        }
    }
}

} // verus!

