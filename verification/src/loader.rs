//! The loader: applies configuration entries to a configuration, keeping
//! the diagnostics and the overrides it applied; per-command tables.
use vstd::prelude::*;
use vstd::string::StringSliceAdditionalSpecFns;

use crate::config::{
    CaseStyle, CmdModel, CommandConfiguration, CommentPreservation, ConfigModel, Configuration,
    EndCommandArgs, IndentStyle, NewLineKind, SortArguments, SpaceBeforeParen, SpaceInsideParen,
    WrapStyle,
};
use crate::load::{
    json_object_text, json_value_text, toml_table_text, parse_json_object, parse_json_value,
    parse_toml_table, opt_entries, toml_entries_model, trim_byte, ConfigLoadResult,
    CanonicalKey,
    ConfigDiagnostic,
    ConfigDiagnosticSeverity,
    JsonModel,
    JsonValue,
    RawConfigValue,
    RawModel,
    canonical,
    canonical_key,
    case_name,
    case_of,
    case_of_bytes,
    case_text,
    cp_name,
    cp_of,
    cp_of_bytes,
    cp_text,
    dec,
    dec_string,
    eca_name,
    eca_of,
    eca_of_bytes,
    eca_text,
    entries_model,
    indent_name,
    indent_of,
    indent_of_bytes,
    indent_text,
    invalid_type_msg,
    invalid_type_text,
    invalid_value_msg,
    invalid_value_text,
    join_text,
    joined,
    json_model,
    lemma_dec_ascii,
    lemma_entries_model,
    lemma_string_valid,
    list_string,
    list_text,
    nlk_name,
    nlk_of,
    nlk_of_bytes,
    nlk_text,
    raw_bool,
    raw_model,
    raw_null,
    raw_string,
    raw_strings,
    raw_u32,
    raw_u8,
    sbytes,
    sip_name,
    sip_of,
    sip_of_bytes,
    sip_text,
    strings_model,
    unknown_msg,
    wrap_name,
    wrap_of,
    wrap_of_bytes,
    wrap_text,
};
use crate::text::{eq_bytes, string_of, trim_seq, skip_ws, bnd};
use crate::post_process::byte_pos;
use crate::inline::{apply_all, json_entries, sort_overrides, sorted_by_key, start_from, text_entries};
use crate::cmd_options::{apply_cmd, cmd_group};
use crate::settings::{key_index, lemma_key_index, lemma_strs_of, pcc_insert, pcc_merge, pcc_put};

verus! {

pub ghost struct DiagModel {
    pub key: Seq<u8>,
    pub message: Seq<u8>,
}

pub open spec fn diag_model(d: ConfigDiagnostic) -> DiagModel {
    DiagModel { key: sbytes(d.key), message: sbytes(d.message) }
}

#[verifier::opaque]
pub open spec fn diags_model(v: Seq<ConfigDiagnostic>) -> Seq<DiagModel> {
    v.map_values(|d: ConfigDiagnostic| diag_model(d))
}

#[verifier::opaque]
pub open spec fn pairs_text(v: Seq<(String, String)>) -> Seq<(Seq<u8>, Seq<u8>)> {
    v.map_values(|p: (String, String)| (sbytes(p.0), sbytes(p.1)))
}

/// A loading in progress: the configuration so far, the diagnostics and the
/// recorded (key, value) overrides.
pub ghost struct LoadModel {
    pub config: ConfigModel,
    pub diagnostics: Seq<DiagModel>,
    pub overrides: Seq<(Seq<u8>, Seq<u8>)>,
}

pub open spec fn diag(st: LoadModel, key: Seq<u8>, msg: Seq<u8>) -> LoadModel {
    LoadModel { diagnostics: st.diagnostics.push(DiagModel { key, message: msg }), ..st }
}

pub open spec fn record(st: LoadModel, key: Seq<u8>, val: Seq<u8>) -> LoadModel {
    LoadModel { overrides: st.overrides.push((key, val)), ..st }
}

pub open spec fn with_config(st: LoadModel, c: ConfigModel) -> LoadModel {
    LoadModel { config: c, ..st }
}

/// A typed option: set and recorded when the value parses, else a diagnostic
/// that names the expected type.
pub open spec fn typed<T>(
    st: LoadModel,
    key: Seq<u8>,
    parsed: Option<T>,
    expected: Seq<u8>,
    f: spec_fn(ConfigModel, T) -> ConfigModel,
    show: spec_fn(T) -> Seq<u8>,
) -> LoadModel {
    match parsed {
        Some(x) => record(with_config(st, f(st.config, x)), key, show(x)),
        None => diag(st, key, invalid_type_msg(key, expected)),
    }
}

/// An option given by name: a string that names one of the choices, else a
/// diagnostic (of type, or of value naming the choices).
pub open spec fn named<T>(
    st: LoadModel,
    key: Seq<u8>,
    v: RawModel,
    parse: spec_fn(Seq<u8>) -> Option<T>,
    field: Seq<u8>,
    options: Seq<u8>,
    f: spec_fn(ConfigModel, T) -> ConfigModel,
    show: spec_fn(T) -> Seq<u8>,
) -> LoadModel {
    match raw_string(v) {
        None => diag(st, key, invalid_type_msg(key, "string".spec_bytes())),
        Some(s) => match parse(s) {
            None => diag(st, key, invalid_value_msg(field, s, options)),
            Some(x) => record(with_config(st, f(st.config, x)), key, show(x)),
        },
    }
}

pub open spec fn bool_name(b: bool) -> Seq<u8> {
    if b {
        "true".spec_bytes()
    } else {
        "false".spec_bytes()
    }
}

pub open spec fn raw_nullable_u8(v: RawModel) -> Option<Option<u8>> {
    if raw_null(v) {
        Some(None)
    } else {
        match raw_u8(v) {
            Some(x) => Some(Some(x)),
            None => None,
        }
    }
}

pub open spec fn raw_nullable_u32(v: RawModel) -> Option<Option<u32>> {
    if raw_null(v) {
        Some(None)
    } else {
        match raw_u32(v) {
            Some(x) => Some(Some(x)),
            None => None,
        }
    }
}

pub open spec fn nullable_name(x: Option<nat>) -> Seq<u8> {
    match x {
        Some(n) => dec(n),
        None => "null".spec_bytes(),
    }
}

pub open spec fn lower_all(v: Seq<Seq<u8>>) -> Seq<Seq<u8>> {
    v.map_values(|s: Seq<u8>| crate::text::lower_seq(s))
}

/// `true`/`false`, or a list of names (lower-cased).
pub open spec fn raw_bool_or_list(v: RawModel) -> Option<Result<bool, Seq<Seq<u8>>>> {
    match raw_bool(v) {
        Some(b) => Some(Ok(b)),
        None => match raw_strings(v) {
            Some(l) => Some(Err(lower_all(l))),
            None => None,
        },
    }
}

pub open spec fn bool_or_list_name(x: Result<bool, Seq<Seq<u8>>>) -> Seq<u8> {
    match x {
        Ok(b) => bool_name(b),
        Err(l) => list_text(l),
    }
}

pub open spec fn space_of(x: Result<bool, Seq<Seq<u8>>>) -> crate::config::SpaceModel {
    match x {
        Ok(true) => crate::config::SpaceModel::Always,
        Ok(false) => crate::config::SpaceModel::Never,
        Err(l) => crate::config::SpaceModel::CommandList(l),
    }
}

pub open spec fn sort_of(x: Result<bool, Seq<Seq<u8>>>) -> crate::config::SortModel {
    match x {
        Ok(true) => crate::config::SortModel::Enabled,
        Ok(false) => crate::config::SortModel::Disabled,
        Err(l) => crate::config::SortModel::CommandList(l),
    }
}

/// Reads configuration values into a configuration, collecting diagnostics
/// and the overrides it applied.
pub struct Loader {
    pub config: Configuration,
    pub diagnostics: Vec<ConfigDiagnostic>,
    pub overrides: Vec<(String, String)>,
}

impl Loader {
    pub open spec fn model(&self) -> LoadModel {
        LoadModel {
            config: self.config.model(),
            diagnostics: diags_model(self.diagnostics@),
            overrides: pairs_text(self.overrides@),
        }
    }

    #[verifier::spinoff_prover]
    #[verifier::rlimit(100)]
    pub fn new(config: Configuration) -> (r: Loader)
        ensures
            r.model() == (LoadModel { config: config.model(), diagnostics: seq![], overrides: seq![] }),
    {
        let r = Loader { config, diagnostics: Vec::new(), overrides: Vec::new() };
        proof {
            reveal(diags_model);
            assert(diags_model(r.diagnostics@) =~= Seq::<DiagModel>::empty());
            reveal(pairs_text);
            assert(pairs_text(r.overrides@) =~= Seq::<(Seq<u8>, Seq<u8>)>::empty());
        }
        r
    }

    #[verifier::spinoff_prover]
    #[verifier::rlimit(100)]
    fn push_diag(&mut self, key: String, message: String)
        ensures
            final(self).model() == diag(old(self).model(), sbytes(key), sbytes(message)),
            final(self).config == old(self).config,
    {
        let ghost o = self.diagnostics@;
        self.diagnostics.push(ConfigDiagnostic { key, message, severity: ConfigDiagnosticSeverity::Warning });
        proof {
            reveal(diags_model);
            assert(diags_model(self.diagnostics@) =~= diags_model(o).push(DiagModel { key: sbytes(key), message: sbytes(message) }));
        }
    }

    #[verifier::spinoff_prover]
    #[verifier::rlimit(100)]
    pub fn push_message(&mut self, key: &str, message: String)
        ensures
            final(self).model() == diag(old(self).model(), key.spec_bytes(), sbytes(message)),
            final(self).config == old(self).config,
    {
        let k = String::from_str(key);
        proof {
            assert(sbytes(k) == key.spec_bytes());
        }
        self.push_diag(k, message);
    }

    #[verifier::spinoff_prover]
    #[verifier::rlimit(100)]
    pub fn push_unknown_key(&mut self, key: &str)
        ensures
            final(self).model() == diag(old(self).model(), key.spec_bytes(), unknown_msg()),
            final(self).config == old(self).config,
    {
        let k = String::from_str(key);
        let m = String::from_str("Unknown property in configuration");
        proof {
            assert(sbytes(k) == key.spec_bytes());
        }
        self.push_diag(k, m);
    }

    #[verifier::spinoff_prover]
    #[verifier::rlimit(100)]
    pub fn push_invalid_type(&mut self, key: &str, expected: &str)
        ensures
            final(self).model() == diag(old(self).model(), key.spec_bytes(), invalid_type_msg(key.spec_bytes(), expected.spec_bytes())),
            final(self).config == old(self).config,
    {
        let k = String::from_str(key);
        let m = invalid_type_text(key, expected);
        self.push_diag(k, m);
    }

    #[verifier::spinoff_prover]
    #[verifier::rlimit(100)]
    pub fn record_override(&mut self, key: &str, value: String)
        ensures
            final(self).model() == record(old(self).model(), key.spec_bytes(), sbytes(value)),
            final(self).config == old(self).config,
    {
        let ghost o = self.overrides@;
        let k = String::from_str(key);
        self.overrides.push((k, value));
        proof {
            reveal(pairs_text);
            assert(pairs_text(self.overrides@) =~= pairs_text(o).push((key.spec_bytes(), sbytes(value))));
        }
    }

    /// The value as a `u32`, or a diagnostic.
    #[verifier::spinoff_prover]
    #[verifier::rlimit(100)]
    pub(crate) fn take_u32(&mut self, key: &str, v: &RawConfigValue) -> (r: Option<u32>)
        ensures
            r == raw_u32(raw_model(*v)),
            r is None ==> final(self).model() == diag(old(self).model(), key.spec_bytes(), invalid_type_msg(key.spec_bytes(), "non-negative integer".spec_bytes())),
            r is Some ==> final(self).model() == old(self).model(),
            final(self).config == old(self).config,
    {
        let r = v.as_u32_number();
        if r.is_none() {
            self.push_invalid_type(key, "non-negative integer");
        }
        r
    }

    /// The value as a `u8`, or a diagnostic.
    #[verifier::spinoff_prover]
    #[verifier::rlimit(100)]
    pub(crate) fn take_u8(&mut self, key: &str, v: &RawConfigValue) -> (r: Option<u8>)
        ensures
            r == raw_u8(raw_model(*v)),
            r is None ==> final(self).model() == diag(old(self).model(), key.spec_bytes(), invalid_type_msg(key.spec_bytes(), "integer in 0..=255".spec_bytes())),
            r is Some ==> final(self).model() == old(self).model(),
            final(self).config == old(self).config,
    {
        let r = v.as_u8_number();
        if r.is_none() {
            self.push_invalid_type(key, "integer in 0..=255");
        }
        r
    }

    /// The value as a boolean, or a diagnostic.
    #[verifier::spinoff_prover]
    #[verifier::rlimit(100)]
    pub(crate) fn take_bool(&mut self, key: &str, v: &RawConfigValue) -> (r: Option<bool>)
        ensures
            r == raw_bool(raw_model(*v)),
            r is None ==> final(self).model() == diag(old(self).model(), key.spec_bytes(), invalid_type_msg(key.spec_bytes(), "boolean".spec_bytes())),
            r is Some ==> final(self).model() == old(self).model(),
            final(self).config == old(self).config,
    {
        let r = v.as_bool();
        if r.is_none() {
            self.push_invalid_type(key, "boolean");
        }
        r
    }

    #[verifier::spinoff_prover]
    #[verifier::rlimit(100)]
    pub(crate) fn take_nullable_u8(&mut self, key: &str, v: &RawConfigValue) -> (r: Option<Option<u8>>)
        ensures
            r == raw_nullable_u8(raw_model(*v)),
            r is None ==> final(self).model() == diag(old(self).model(), key.spec_bytes(), invalid_type_msg(key.spec_bytes(), "integer in 0..=255".spec_bytes())),
            r is Some ==> final(self).model() == old(self).model(),
            final(self).config == old(self).config,
    {
        if v.is_null() {
            return Some(None);
        }
        match self.take_u8(key, v) {
            Some(x) => Some(Some(x)),
            None => None,
        }
    }

    #[verifier::spinoff_prover]
    #[verifier::rlimit(100)]
    pub(crate) fn take_nullable_u32(&mut self, key: &str, v: &RawConfigValue) -> (r: Option<Option<u32>>)
        ensures
            r == raw_nullable_u32(raw_model(*v)),
            r is None ==> final(self).model() == diag(old(self).model(), key.spec_bytes(), invalid_type_msg(key.spec_bytes(), "non-negative integer".spec_bytes())),
            r is Some ==> final(self).model() == old(self).model(),
            final(self).config == old(self).config,
    {
        if v.is_null() {
            return Some(None);
        }
        match self.take_u32(key, v) {
            Some(x) => Some(Some(x)),
            None => None,
        }
    }

    /// The value as a string, or a diagnostic.
    #[verifier::spinoff_prover]
    #[verifier::rlimit(100)]
    pub(crate) fn take_string(&mut self, key: &str, v: &RawConfigValue) -> (r: Option<String>)
        ensures
            match (r, raw_string(raw_model(*v))) {
                (Some(x), Some(y)) => sbytes(x) == y,
                (None, None) => true,
                _ => false,
            },
            r is None ==> final(self).model() == diag(old(self).model(), key.spec_bytes(), invalid_type_msg(key.spec_bytes(), "string".spec_bytes())),
            r is Some ==> final(self).model() == old(self).model(),
            final(self).config == old(self).config,
    {
        let r = v.to_string_value();
        if r.is_none() {
            self.push_invalid_type(key, "string");
        }
        r
    }

    /// The value as a list of strings, lower-cased when asked, or a
    /// diagnostic naming `expected`.
    #[verifier::spinoff_prover]
    #[verifier::rlimit(100)]
    pub(crate) fn take_strings(&mut self, key: &str, v: &RawConfigValue, lowercase: bool, expected: &str) -> (r: Option<Vec<String>>)
        ensures
            match (r, raw_strings(raw_model(*v))) {
                (Some(x), Some(y)) => strings_model(x@) == if lowercase { lower_all(y) } else { y },
                (None, None) => true,
                _ => false,
            },
            r is None ==> final(self).model() == diag(old(self).model(), key.spec_bytes(), invalid_type_msg(key.spec_bytes(), expected.spec_bytes())),
            r is Some ==> final(self).model() == old(self).model(),
            final(self).config == old(self).config,
    {
        match v.to_strings() {
            None => {
                self.push_invalid_type(key, expected);
                None
            },
            Some(l) => {
                if lowercase {
                    Some(lower_strings(&l))
                } else {
                    Some(l)
                }
            },
        }
    }

    /// `true`/`false` or a list of names (lower-cased), or a diagnostic.
    #[verifier::spinoff_prover]
    #[verifier::rlimit(100)]
    pub(crate) fn take_bool_or_list(&mut self, key: &str, v: &RawConfigValue, expected: &str) -> (r: Option<Result<bool, Vec<String>>>)
        ensures
            match (r, raw_bool_or_list(raw_model(*v))) {
                (Some(Ok(a)), Some(Ok(b))) => a == b,
                (Some(Err(a)), Some(Err(b))) => strings_model(a@) == b,
                (None, None) => true,
                _ => false,
            },
            r is None ==> final(self).model() == diag(old(self).model(), key.spec_bytes(), invalid_type_msg(key.spec_bytes(), expected.spec_bytes())),
            r is Some ==> final(self).model() == old(self).model(),
            final(self).config == old(self).config,
    {
        match v.as_bool() {
            Some(b) => Some(Ok(b)),
            None => match self.take_strings(key, v, true, expected) {
                Some(l) => Some(Err(l)),
                None => None,
            },
        }
    }
}

/// The strings, ASCII lower-cased.
#[verifier::spinoff_prover]
#[verifier::rlimit(100)]
pub fn lower_strings(v: &Vec<String>) -> (r: Vec<String>)
    ensures
        strings_model(r@) == lower_all(strings_model(v@)),
{
    let mut out: Vec<String> = Vec::new();
    let mut i: usize = 0;
    proof {
        reveal(strings_model);
        assert(strings_model(out@) =~= lower_all(strings_model(v@)).take(0));
    }
    while i < v.len()
        invariant
            i <= v@.len(),
            strings_model(out@) == lower_all(strings_model(v@)).take(i as int),
        decreases v@.len() - i,
    {
        let b = crate::text::to_lower_vec(v[i].as_str().as_bytes());
        proof {
            lemma_string_valid(v@[i as int]);
            crate::text::lemma_lower_valid(sbytes(v@[i as int]));
        }
        let s = string_of(b.as_slice());
        let ghost o = strings_model(out@);
        out.push(s);
        i = i + 1;
        proof {
            reveal(strings_model);
            assert(strings_model(out@) =~= o.push(sbytes(s)));
            reveal(strings_model);
            assert(lower_all(strings_model(v@)).take(i as int) =~= lower_all(strings_model(v@)).take(i - 1).push(crate::text::lower_seq(sbytes(v@[i - 1]))));
        }
    }
    proof {
        reveal(strings_model);
        assert(lower_all(strings_model(v@)).take(v@.len() as int) =~= lower_all(strings_model(v@)));
    }
    out
}

pub open spec fn cmd_typed<T>(
    st: LoadModel,
    t: CmdModel,
    key: Seq<u8>,
    parsed: Option<T>,
    expected: Seq<u8>,
    f: spec_fn(CmdModel, T) -> CmdModel,
) -> (LoadModel, CmdModel) {
    match parsed {
        Some(x) => (st, f(t, x)),
        None => (diag(st, key, invalid_type_msg(key, expected)), t),
    }
}

pub open spec fn cmd_named<T>(
    st: LoadModel,
    t: CmdModel,
    key: Seq<u8>,
    v: RawModel,
    parse: spec_fn(Seq<u8>) -> Option<T>,
    field: Seq<u8>,
    options: Seq<u8>,
    f: spec_fn(CmdModel, T) -> CmdModel,
) -> (LoadModel, CmdModel) {
    match raw_string(v) {
        None => (diag(st, key, invalid_type_msg(key, "string".spec_bytes())), t),
        Some(s) => match parse(s) {
            None => (diag(st, key, invalid_value_msg(field, s, options)), t),
            Some(x) => (st, f(t, x)),
        },
    }
}

/// `indent`: `tabs`, `spaces`, or a width (which means spaces).
pub open spec fn indent_mode(st: LoadModel, k: Seq<u8>, v: RawModel) -> LoadModel {
    match indent_word_of(v) {
        Some(true) => tabs_mode(st, k),
        Some(false) => spaces_mode(st, k),
        None => match raw_u8(v) {
            Some(w) => width_mode(st, k, w),
            None => diag(st, k, invalid_type_msg(k, "string ('tabs'/'spaces') or integer for indent width".spec_bytes())),
        },
    }
}

/// Indentation by tabs, recorded as `tabs`.
#[verifier::opaque]
pub open spec fn tabs_mode(st: LoadModel, k: Seq<u8>) -> LoadModel {
    record(with_config(st, ConfigModel { use_tabs: true, indent_style: IndentStyle::Tab, ..st.config }), k, "tabs".spec_bytes())
}

/// Indentation by spaces, recorded as `spaces`.
#[verifier::opaque]
pub open spec fn spaces_mode(st: LoadModel, k: Seq<u8>) -> LoadModel {
    record(with_config(st, ConfigModel { use_tabs: false, indent_style: IndentStyle::Space, ..st.config }), k, "spaces".spec_bytes())
}

/// Indentation by `w` spaces, recorded as the number.
#[verifier::opaque]
pub open spec fn width_mode(st: LoadModel, k: Seq<u8>, w: u8) -> LoadModel {
    record(with_config(st, ConfigModel { indent_width: w, use_tabs: false, indent_style: IndentStyle::Space, ..st.config }), k, dec(w as nat))
}

#[verifier::spinoff_prover]
#[verifier::rlimit(100)]
pub fn bool_string(b: bool) -> (r: String)
    ensures
        sbytes(r) == bool_name(b),
{
    if b {
        String::from_str("true")
    } else {
        String::from_str("false")
    }
}

#[verifier::spinoff_prover]
#[verifier::rlimit(100)]
pub fn nullable_string(x: Option<u64>) -> (r: String)
    ensures
        sbytes(r) == nullable_name(match x {
            Some(n) => Some(n as nat),
            None => None,
        }),
{
    match x {
        Some(n) => dec_string(n),
        None => String::from_str("null"),
    }
}

#[verifier::spinoff_prover]
#[verifier::rlimit(100)]
pub fn bool_or_list_string(x: &Result<bool, Vec<String>>) -> (r: String)
    ensures
        sbytes(r) == bool_or_list_name(match x {
            Ok(b) => Ok(*b),
            Err(l) => Err(strings_model(l@)),
        }),
{
    match x {
        Ok(b) => bool_string(*b),
        Err(l) => list_string(l),
    }
}

pub open spec fn raw_object(v: RawModel) -> Option<Seq<(Seq<u8>, JsonModel)>> {
    match v {
        RawModel::Json(JsonModel::Object(m)) => Some(m),
        _ => None,
    }
}

pub open spec fn default_cmd() -> CmdModel {
    CmdModel {
        line_width: None,
        wrap_style: None,
        first_arg_same_line: None,
        wrap_arg_threshold: None,
        indent_width: None,
        indent_style: None,
        continuation_indent_width: None,
        command_case: None,
        keyword_case: None,
        custom_keywords: None,
        literal_case: None,
        closing_paren_newline: None,
        space_before_paren: None,
        space_inside_paren: None,
        comment_preservation: None,
        comment_width: None,
        align_trailing_comments: None,
        comment_gap: None,
        align_property_values: None,
        align_consecutive_set: None,
        align_arg_groups: None,
        sort_arguments: None,
        sort_keyword_sections: None,
    }
}

/// The options of one command's table applied in order, each under the key
/// `scoped.option`.
pub open spec fn cmd_options(st: LoadModel, t: CmdModel, scoped: Seq<u8>, opts: Seq<(Seq<u8>, JsonModel)>) -> (LoadModel, CmdModel)
    decreases opts.len(),
{
    if opts.len() == 0 {
        (st, t)
    } else {
        let (st1, t1) = cmd_options(st, t, scoped, opts.drop_last());
        let (k, v) = opts.last();
        apply_cmd(st1, t1, scoped + ".".spec_bytes() + k, k, RawModel::Json(v))
    }
}

/// The commands' tables applied in order: each table's options, under the
/// command's lower-cased name; a command whose value is no table gives a
/// diagnostic.
pub open spec fn cmd_entries(st: LoadModel, parsed: Seq<(Seq<u8>, CmdModel)>, key: Seq<u8>, entries: Seq<(Seq<u8>, JsonModel)>) -> (LoadModel, Seq<(Seq<u8>, CmdModel)>)
    decreases entries.len(),
{
    if entries.len() == 0 {
        (st, parsed)
    } else {
        let (st1, p1) = cmd_entries(st, parsed, key, entries.drop_last());
        let (name, val) = entries.last();
        let scoped = key + ".".spec_bytes() + name;
        match val {
            JsonModel::Object(opts) => {
                let (st2, t) = cmd_options(st1, default_cmd(), scoped, opts);
                (st2, pcc_put(p1, crate::text::lower_seq(name), t))
            },
            _ => (diag(st1, scoped, invalid_type_msg(scoped, "table/object".spec_bytes())), p1),
        }
    }
}

/// The loading with the configuration's command tables replaced.
pub open spec fn with_tables(st: LoadModel, p: Seq<(Seq<u8>, CmdModel)>) -> LoadModel {
    with_config(st, ConfigModel { per_command_config: p, ..st.config })
}

/// `perCommandConfig`: a table of commands' tables, merged into the
/// configuration's (a command given again replaces its table); recorded with
/// the number of commands that then have one.
pub open spec fn per_command(st: LoadModel, key: Seq<u8>, v: RawModel) -> LoadModel {
    match raw_object(v) {
        None => diag(st, key, invalid_type_msg(key, "table/object".spec_bytes())),
        Some(entries) => {
            let (st1, parsed) = cmd_entries(st, seq![], key, entries);
            let merged = pcc_merge(st1.config.per_command_config, parsed);
            record(
                with_tables(st1, merged),
                key,
                dec(merged.len()) + " command override(s)".spec_bytes(),
            )
        },
    }
}



/// A value that is `true`/`false` or a list of names, with text as bytes.
pub open spec fn bool_or_list_model(x: Result<bool, Vec<String>>) -> Result<bool, Seq<Seq<u8>>> {
    match x {
        Ok(b) => Ok(b),
        Err(l) => Err(strings_model(l@)),
    }
}

/// Which of the four helpers of `apply_raw_value` applies a key.
pub open spec fn key_group(ck: CanonicalKey) -> int {
    match ck {
        CanonicalKey::LineWidth => 1,
        CanonicalKey::WrapStyle => 1,
        CanonicalKey::FirstArgSameLine => 1,
        CanonicalKey::WrapArgThreshold => 1,
        CanonicalKey::IndentWidth => 1,
        CanonicalKey::UseTabs => 1,
        CanonicalKey::IndentStyle => 1,
        CanonicalKey::ContinuationIndentWidth => 1,
        CanonicalKey::NewLineKind => 1,
        CanonicalKey::FinalNewline => 1,
        CanonicalKey::MaxBlankLines => 2,
        CanonicalKey::MinBlankLinesBetweenBlocks => 2,
        CanonicalKey::BlankLineBetweenSections => 2,
        CanonicalKey::CommandCase => 2,
        CanonicalKey::KeywordCase => 2,
        CanonicalKey::CustomKeywords => 2,
        CanonicalKey::LiteralCase => 2,
        CanonicalKey::ClosingParenNewline => 2,
        CanonicalKey::SpaceBeforeParen => 2,
        CanonicalKey::SpaceInsideParen => 2,
        CanonicalKey::CommentPreservation => 3,
        CanonicalKey::CommentWidth => 3,
        CanonicalKey::AlignTrailingComments => 3,
        CanonicalKey::CommentGap => 3,
        CanonicalKey::TrimTrailingWhitespace => 3,
        CanonicalKey::CollapseSpaces => 3,
        CanonicalKey::AlignPropertyValues => 3,
        CanonicalKey::AlignConsecutiveSet => 3,
        CanonicalKey::AlignArgGroups => 3,
        CanonicalKey::PerCommandConfig => 4,
        CanonicalKey::SortArguments => 4,
        CanonicalKey::SortKeywordSections => 4,
        CanonicalKey::DisableFormatting => 4,
        CanonicalKey::IgnorePatterns => 4,
        CanonicalKey::IgnoreCommands => 4,
        CanonicalKey::IndentBlockBody => 4,
        CanonicalKey::EndCommandArgs => 4,
        CanonicalKey::Extends => 4,
        CanonicalKey::IndentMode => 4,
    }
}

/// The effect of one configuration entry whose key is known: the option it
/// names is set (and recorded) when its value parses, else a diagnostic.
pub open spec fn apply_key(st: LoadModel, ck: CanonicalKey, k: Seq<u8>, v: RawModel) -> LoadModel {
    match ck {
        CanonicalKey::LineWidth => key_line_width(st, k, v),
        CanonicalKey::WrapStyle => key_wrap_style(st, k, v),
        CanonicalKey::FirstArgSameLine => key_first_arg_same_line(st, k, v),
        CanonicalKey::WrapArgThreshold => key_wrap_arg_threshold(st, k, v),
        CanonicalKey::IndentWidth => key_indent_width(st, k, v),
        CanonicalKey::UseTabs => key_use_tabs(st, k, v),
        CanonicalKey::IndentStyle => key_indent_style(st, k, v),
        CanonicalKey::ContinuationIndentWidth => key_continuation_indent_width(st, k, v),
        CanonicalKey::NewLineKind => key_new_line_kind(st, k, v),
        CanonicalKey::FinalNewline => key_final_newline(st, k, v),
        CanonicalKey::MaxBlankLines => key_max_blank_lines(st, k, v),
        CanonicalKey::MinBlankLinesBetweenBlocks => key_min_blank_lines_between_blocks(st, k, v),
        CanonicalKey::BlankLineBetweenSections => key_blank_line_between_sections(st, k, v),
        CanonicalKey::CommandCase => key_command_case(st, k, v),
        CanonicalKey::KeywordCase => key_keyword_case(st, k, v),
        CanonicalKey::CustomKeywords => key_custom_keywords(st, k, v),
        CanonicalKey::LiteralCase => key_literal_case(st, k, v),
        CanonicalKey::ClosingParenNewline => key_closing_paren_newline(st, k, v),
        CanonicalKey::SpaceBeforeParen => key_space_before_paren(st, k, v),
        CanonicalKey::SpaceInsideParen => key_space_inside_paren(st, k, v),
        CanonicalKey::CommentPreservation => key_comment_preservation(st, k, v),
        CanonicalKey::CommentWidth => key_comment_width(st, k, v),
        CanonicalKey::AlignTrailingComments => key_align_trailing_comments(st, k, v),
        CanonicalKey::CommentGap => key_comment_gap(st, k, v),
        CanonicalKey::TrimTrailingWhitespace => key_trim_trailing_whitespace(st, k, v),
        CanonicalKey::CollapseSpaces => key_collapse_spaces(st, k, v),
        CanonicalKey::AlignPropertyValues => key_align_property_values(st, k, v),
        CanonicalKey::AlignConsecutiveSet => key_align_consecutive_set(st, k, v),
        CanonicalKey::AlignArgGroups => key_align_arg_groups(st, k, v),
        CanonicalKey::PerCommandConfig => key_per_command_config(st, k, v),
        CanonicalKey::SortArguments => key_sort_arguments(st, k, v),
        CanonicalKey::SortKeywordSections => key_sort_keyword_sections(st, k, v),
        CanonicalKey::DisableFormatting => key_disable_formatting(st, k, v),
        CanonicalKey::IgnorePatterns => key_ignore_patterns(st, k, v),
        CanonicalKey::IgnoreCommands => key_ignore_commands(st, k, v),
        CanonicalKey::IndentBlockBody => key_indent_block_body(st, k, v),
        CanonicalKey::EndCommandArgs => key_end_command_args(st, k, v),
        CanonicalKey::Extends => key_extends(st, k, v),
        CanonicalKey::IndentMode => key_indent_mode(st, k, v),
    }
}

/// The effect of the `LineWidth` option.
pub open spec fn key_line_width(st: LoadModel, k: Seq<u8>, v: RawModel) -> LoadModel {
    typed(st, k, raw_u32(v), "non-negative integer".spec_bytes(), |c: ConfigModel, x: u32| ConfigModel { line_width: x, ..c }, |x: u32| dec(x as nat))
}

/// The effect of the `WrapStyle` option.
pub open spec fn key_wrap_style(st: LoadModel, k: Seq<u8>, v: RawModel) -> LoadModel {
    named(st, k, v, |s: Seq<u8>| wrap_of(s), "wrapStyle".spec_bytes(), "cascade, vertical".spec_bytes(), |c: ConfigModel, x: WrapStyle| ConfigModel { wrap_style: x, ..c }, |x: WrapStyle| wrap_name(x))
}

/// The effect of the `FirstArgSameLine` option.
pub open spec fn key_first_arg_same_line(st: LoadModel, k: Seq<u8>, v: RawModel) -> LoadModel {
    typed(st, k, raw_bool(v), "boolean".spec_bytes(), |c: ConfigModel, x: bool| ConfigModel { first_arg_same_line: x, ..c }, |x: bool| bool_name(x))
}

/// The effect of the `WrapArgThreshold` option.
pub open spec fn key_wrap_arg_threshold(st: LoadModel, k: Seq<u8>, v: RawModel) -> LoadModel {
    typed(st, k, raw_u32(v), "non-negative integer".spec_bytes(), |c: ConfigModel, x: u32| ConfigModel { wrap_arg_threshold: x, ..c }, |x: u32| dec(x as nat))
}

/// The effect of the `IndentWidth` option.
pub open spec fn key_indent_width(st: LoadModel, k: Seq<u8>, v: RawModel) -> LoadModel {
    typed(st, k, raw_u8(v), "integer in 0..=255".spec_bytes(), |c: ConfigModel, x: u8| ConfigModel { indent_width: x, ..c }, |x: u8| dec(x as nat))
}

/// The effect of the `UseTabs` option.
pub open spec fn key_use_tabs(st: LoadModel, k: Seq<u8>, v: RawModel) -> LoadModel {
    typed(st, k, raw_bool(v), "boolean".spec_bytes(), |c: ConfigModel, x: bool| ConfigModel { use_tabs: x, indent_style: if x { IndentStyle::Tab } else { IndentStyle::Space }, ..c }, |x: bool| bool_name(x))
}

/// The effect of the `IndentStyle` option.
pub open spec fn key_indent_style(st: LoadModel, k: Seq<u8>, v: RawModel) -> LoadModel {
    named(st, k, v, |s: Seq<u8>| indent_of(s), "indentStyle".spec_bytes(), "space, tab".spec_bytes(), |c: ConfigModel, x: IndentStyle| ConfigModel { indent_style: x, use_tabs: x == IndentStyle::Tab, ..c }, |x: IndentStyle| indent_name(x))
}

/// The effect of the `ContinuationIndentWidth` option.
pub open spec fn key_continuation_indent_width(st: LoadModel, k: Seq<u8>, v: RawModel) -> LoadModel {
    typed(st, k, raw_nullable_u8(v), "integer in 0..=255".spec_bytes(), |c: ConfigModel, x: Option<u8>| ConfigModel { continuation_indent_width: x, ..c }, |x: Option<u8>| nullable_name(opt_nat8(x)))
}

/// The effect of the `NewLineKind` option.
pub open spec fn key_new_line_kind(st: LoadModel, k: Seq<u8>, v: RawModel) -> LoadModel {
    named(st, k, v, |s: Seq<u8>| nlk_of(s), "lineEnding/newLineKind".spec_bytes(), "auto, lf, crlf".spec_bytes(), |c: ConfigModel, x: NewLineKind| ConfigModel { new_line_kind: x, ..c }, |x: NewLineKind| nlk_name(x))
}

/// The effect of the `FinalNewline` option.
pub open spec fn key_final_newline(st: LoadModel, k: Seq<u8>, v: RawModel) -> LoadModel {
    typed(st, k, raw_bool(v), "boolean".spec_bytes(), |c: ConfigModel, x: bool| ConfigModel { final_newline: x, ..c }, |x: bool| bool_name(x))
}

/// The effect of the `MaxBlankLines` option.
pub open spec fn key_max_blank_lines(st: LoadModel, k: Seq<u8>, v: RawModel) -> LoadModel {
    typed(st, k, raw_u8(v), "integer in 0..=255".spec_bytes(), |c: ConfigModel, x: u8| ConfigModel { max_blank_lines: x, ..c }, |x: u8| dec(x as nat))
}

/// The effect of the `MinBlankLinesBetweenBlocks` option.
pub open spec fn key_min_blank_lines_between_blocks(st: LoadModel, k: Seq<u8>, v: RawModel) -> LoadModel {
    typed(st, k, raw_u8(v), "integer in 0..=255".spec_bytes(), |c: ConfigModel, x: u8| ConfigModel { min_blank_lines_between_blocks: x, ..c }, |x: u8| dec(x as nat))
}

/// The effect of the `BlankLineBetweenSections` option.
pub open spec fn key_blank_line_between_sections(st: LoadModel, k: Seq<u8>, v: RawModel) -> LoadModel {
    typed(st, k, raw_bool(v), "boolean".spec_bytes(), |c: ConfigModel, x: bool| ConfigModel { blank_line_between_sections: x, ..c }, |x: bool| bool_name(x))
}

/// The effect of the `CommandCase` option.
pub open spec fn key_command_case(st: LoadModel, k: Seq<u8>, v: RawModel) -> LoadModel {
    named(st, k, v, |s: Seq<u8>| case_of(s), "commandCase".spec_bytes(), "lower, upper, unchanged".spec_bytes(), |c: ConfigModel, x: CaseStyle| ConfigModel { command_case: x, ..c }, |x: CaseStyle| case_name(x))
}

/// The effect of the `KeywordCase` option.
pub open spec fn key_keyword_case(st: LoadModel, k: Seq<u8>, v: RawModel) -> LoadModel {
    named(st, k, v, |s: Seq<u8>| case_of(s), "keywordCase".spec_bytes(), "lower, upper, unchanged".spec_bytes(), |c: ConfigModel, x: CaseStyle| ConfigModel { keyword_case: x, ..c }, |x: CaseStyle| case_name(x))
}

/// The effect of the `CustomKeywords` option.
pub open spec fn key_custom_keywords(st: LoadModel, k: Seq<u8>, v: RawModel) -> LoadModel {
    typed(st, k, raw_strings(v), "array of keyword strings".spec_bytes(), |c: ConfigModel, x: Seq<Seq<u8>>| ConfigModel { custom_keywords: x, ..c }, |x: Seq<Seq<u8>>| list_text(x))
}

/// The effect of the `LiteralCase` option.
pub open spec fn key_literal_case(st: LoadModel, k: Seq<u8>, v: RawModel) -> LoadModel {
    named(st, k, v, |s: Seq<u8>| case_of(s), "literalCase".spec_bytes(), "lower, upper, unchanged".spec_bytes(), |c: ConfigModel, x: CaseStyle| ConfigModel { literal_case: x, ..c }, |x: CaseStyle| case_name(x))
}

/// The effect of the `ClosingParenNewline` option.
pub open spec fn key_closing_paren_newline(st: LoadModel, k: Seq<u8>, v: RawModel) -> LoadModel {
    typed(st, k, raw_bool(v), "boolean".spec_bytes(), |c: ConfigModel, x: bool| ConfigModel { closing_paren_newline: x, ..c }, |x: bool| bool_name(x))
}

/// The effect of the `SpaceBeforeParen` option.
pub open spec fn key_space_before_paren(st: LoadModel, k: Seq<u8>, v: RawModel) -> LoadModel {
    typed(st, k, raw_bool_or_list(v), "boolean or array of command name strings".spec_bytes(), |c: ConfigModel, x: Result<bool, Seq<Seq<u8>>>| ConfigModel { space_before_paren: space_of(x), ..c }, |x: Result<bool, Seq<Seq<u8>>>| bool_or_list_name(x))
}

/// The effect of the `SpaceInsideParen` option.
pub open spec fn key_space_inside_paren(st: LoadModel, k: Seq<u8>, v: RawModel) -> LoadModel {
    named(st, k, v, |s: Seq<u8>| sip_of(s), "spaceInsideParen".spec_bytes(), "insert, remove, preserve".spec_bytes(), |c: ConfigModel, x: SpaceInsideParen| ConfigModel { space_inside_paren: x, ..c }, |x: SpaceInsideParen| sip_name(x))
}

/// The effect of the `CommentPreservation` option.
pub open spec fn key_comment_preservation(st: LoadModel, k: Seq<u8>, v: RawModel) -> LoadModel {
    named(st, k, v, |s: Seq<u8>| cp_of(s), "commentPreservation".spec_bytes(), "preserve, reflow".spec_bytes(), |c: ConfigModel, x: CommentPreservation| ConfigModel { comment_preservation: x, ..c }, |x: CommentPreservation| cp_name(x))
}

/// The effect of the `CommentWidth` option.
pub open spec fn key_comment_width(st: LoadModel, k: Seq<u8>, v: RawModel) -> LoadModel {
    typed(st, k, raw_nullable_u32(v), "non-negative integer".spec_bytes(), |c: ConfigModel, x: Option<u32>| ConfigModel { comment_width: x, ..c }, |x: Option<u32>| nullable_name(opt_nat32(x)))
}

/// The effect of the `AlignTrailingComments` option.
pub open spec fn key_align_trailing_comments(st: LoadModel, k: Seq<u8>, v: RawModel) -> LoadModel {
    typed(st, k, raw_bool(v), "boolean".spec_bytes(), |c: ConfigModel, x: bool| ConfigModel { align_trailing_comments: x, ..c }, |x: bool| bool_name(x))
}

/// The effect of the `CommentGap` option.
pub open spec fn key_comment_gap(st: LoadModel, k: Seq<u8>, v: RawModel) -> LoadModel {
    typed(st, k, raw_u8(v), "integer in 0..=255".spec_bytes(), |c: ConfigModel, x: u8| ConfigModel { comment_gap: x, ..c }, |x: u8| dec(x as nat))
}

/// The effect of the `TrimTrailingWhitespace` option.
pub open spec fn key_trim_trailing_whitespace(st: LoadModel, k: Seq<u8>, v: RawModel) -> LoadModel {
    typed(st, k, raw_bool(v), "boolean".spec_bytes(), |c: ConfigModel, x: bool| ConfigModel { trim_trailing_whitespace: x, ..c }, |x: bool| bool_name(x))
}

/// The effect of the `CollapseSpaces` option.
pub open spec fn key_collapse_spaces(st: LoadModel, k: Seq<u8>, v: RawModel) -> LoadModel {
    typed(st, k, raw_bool(v), "boolean".spec_bytes(), |c: ConfigModel, x: bool| ConfigModel { collapse_spaces: x, ..c }, |x: bool| bool_name(x))
}

/// The effect of the `AlignPropertyValues` option.
pub open spec fn key_align_property_values(st: LoadModel, k: Seq<u8>, v: RawModel) -> LoadModel {
    typed(st, k, raw_bool(v), "boolean".spec_bytes(), |c: ConfigModel, x: bool| ConfigModel { align_property_values: x, ..c }, |x: bool| bool_name(x))
}

/// The effect of the `AlignConsecutiveSet` option.
pub open spec fn key_align_consecutive_set(st: LoadModel, k: Seq<u8>, v: RawModel) -> LoadModel {
    typed(st, k, raw_bool(v), "boolean".spec_bytes(), |c: ConfigModel, x: bool| ConfigModel { align_consecutive_set: x, ..c }, |x: bool| bool_name(x))
}

/// The effect of the `AlignArgGroups` option.
pub open spec fn key_align_arg_groups(st: LoadModel, k: Seq<u8>, v: RawModel) -> LoadModel {
    typed(st, k, raw_bool(v), "boolean".spec_bytes(), |c: ConfigModel, x: bool| ConfigModel { align_arg_groups: x, ..c }, |x: bool| bool_name(x))
}

/// The effect of the `PerCommandConfig` option.
pub open spec fn key_per_command_config(st: LoadModel, k: Seq<u8>, v: RawModel) -> LoadModel {
    per_command(st, k, v)
}

/// The effect of the `SortArguments` option.
pub open spec fn key_sort_arguments(st: LoadModel, k: Seq<u8>, v: RawModel) -> LoadModel {
    typed(st, k, raw_bool_or_list(v), "boolean or array of command/section name strings".spec_bytes(), |c: ConfigModel, x: Result<bool, Seq<Seq<u8>>>| ConfigModel { sort_lists: x == Ok::<bool, Seq<Seq<u8>>>(true), sort_arguments: sort_of(x), sort_arguments_explicit: true, ..c }, |x: Result<bool, Seq<Seq<u8>>>| bool_or_list_name(x))
}

/// The effect of the `SortKeywordSections` option.
pub open spec fn key_sort_keyword_sections(st: LoadModel, k: Seq<u8>, v: RawModel) -> LoadModel {
    typed(st, k, raw_bool(v), "boolean".spec_bytes(), |c: ConfigModel, x: bool| ConfigModel { sort_keyword_sections: x, sort_keyword_sections_explicit: true, ..c }, |x: bool| bool_name(x))
}

/// The effect of the `DisableFormatting` option.
pub open spec fn key_disable_formatting(st: LoadModel, k: Seq<u8>, v: RawModel) -> LoadModel {
    typed(st, k, raw_bool(v), "boolean".spec_bytes(), |c: ConfigModel, x: bool| ConfigModel { disable_formatting: x, ..c }, |x: bool| bool_name(x))
}

/// The effect of the `IgnorePatterns` option.
pub open spec fn key_ignore_patterns(st: LoadModel, k: Seq<u8>, v: RawModel) -> LoadModel {
    typed(st, k, raw_strings(v), "array of glob pattern strings".spec_bytes(), |c: ConfigModel, x: Seq<Seq<u8>>| ConfigModel { ignore_patterns: x, ..c }, |x: Seq<Seq<u8>>| list_text(x))
}

/// The effect of the `IgnoreCommands` option.
pub open spec fn key_ignore_commands(st: LoadModel, k: Seq<u8>, v: RawModel) -> LoadModel {
    typed(st, k, raw_strings(v), "array of command name strings".spec_bytes(), |c: ConfigModel, x: Seq<Seq<u8>>| ConfigModel { ignore_commands: x, ..c }, |x: Seq<Seq<u8>>| list_text(x))
}

/// The effect of the `IndentBlockBody` option.
pub open spec fn key_indent_block_body(st: LoadModel, k: Seq<u8>, v: RawModel) -> LoadModel {
    typed(st, k, raw_bool(v), "boolean".spec_bytes(), |c: ConfigModel, x: bool| ConfigModel { indent_block_body: x, ..c }, |x: bool| bool_name(x))
}

/// The effect of the `EndCommandArgs` option.
pub open spec fn key_end_command_args(st: LoadModel, k: Seq<u8>, v: RawModel) -> LoadModel {
    named(st, k, v, |s: Seq<u8>| eca_of(s), "endCommandArgs".spec_bytes(), "remove, preserve, match".spec_bytes(), |c: ConfigModel, x: EndCommandArgs| ConfigModel { end_command_args: x, ..c }, |x: EndCommandArgs| eca_name(x))
}

/// The effect of the `Extends` option.
pub open spec fn key_extends(st: LoadModel, k: Seq<u8>, v: RawModel) -> LoadModel {
    typed(st, k, raw_string(v), "string".spec_bytes(), |c: ConfigModel, x: Seq<u8>| ConfigModel { extends: Some(x), ..c }, |x: Seq<u8>| x)
}

/// The effect of the `IndentMode` option.
pub open spec fn key_indent_mode(st: LoadModel, k: Seq<u8>, v: RawModel) -> LoadModel {
    indent_mode(st, k, v)
}

/// The effect of one configuration entry: see `apply_key`; an unknown key
/// gives a diagnostic.
pub open spec fn apply_raw(st: LoadModel, k: Seq<u8>, v: RawModel) -> LoadModel {
    match canonical(k) {
        None => diag(st, k, unknown_msg()),
        Some(ck) => apply_key(st, ck, k, v),
    }
}


/// `Some(true)` for the word `tabs`, `Some(false)` for `spaces` (either
/// case), else `None`.
pub open spec fn indent_word_of(v: RawModel) -> Option<bool> {
    match raw_string(v) {
        Some(w) => if crate::text::lower_seq(w) == "tabs".spec_bytes() {
            Some(true)
        } else if crate::text::lower_seq(w) == "spaces".spec_bytes() {
            Some(false)
        } else {
            None
        },
        None => None,
    }
}

/// See `indent_word_of`.
fn indent_word(value: &RawConfigValue) -> (r: Option<bool>)
    ensures
        r == indent_word_of(raw_model(*value)),
{
    match value.to_string_value() {
        Some(s) => {
            let low = crate::text::to_lower_vec(s.as_str().as_bytes());
            if eq_bytes(low.as_slice(), "tabs".as_bytes()) {
                Some(true)
            } else if eq_bytes(low.as_slice(), "spaces".as_bytes()) {
                Some(false)
            } else {
                None
            }
        },
        None => None,
    }
}

/// An optional byte-sized number as a natural number.
pub open spec fn opt_nat8(x: Option<u8>) -> Option<nat> {
    match x {
        Some(n) => Some(n as nat),
        None => None,
    }
}

/// An optional 32-bit number as a natural number.
pub open spec fn opt_nat32(x: Option<u32>) -> Option<nat> {
    match x {
        Some(n) => Some(n as nat),
        None => None,
    }
}

/// The number, or `null`.
fn nullable_u8_string(x: Option<u8>) -> (r: String)
    ensures
        sbytes(r) == nullable_name(opt_nat8(x)),
{
    match x {
        Some(n) => dec_string(n as u64),
        None => String::from_str("null"),
    }
}

/// The number, or `null`.
fn nullable_u32_string(x: Option<u32>) -> (r: String)
    ensures
        sbytes(r) == nullable_name(opt_nat32(x)),
{
    match x {
        Some(n) => dec_string(n as u64),
        None => String::from_str("null"),
    }
}

/// `a`, `b` and `c` joined.
#[verifier::spinoff_prover]
#[verifier::rlimit(100)]
pub fn cat3(a: &str, b: &str, c: &str) -> (r: String)
    ensures
        sbytes(r) == a.spec_bytes() + b.spec_bytes() + c.spec_bytes(),
{
    proof {
        crate::text::lemma_str_valid(a);
        crate::text::lemma_str_valid(b);
        crate::text::lemma_str_valid(c);
    }
    let x = join_text(a.as_bytes(), b.as_bytes());
    let y = join_text(x.as_slice(), c.as_bytes());
    string_of(y.as_slice())
}

/// The text, ASCII lower-cased.
#[verifier::spinoff_prover]
#[verifier::rlimit(100)]
pub fn lower_string(s: &str) -> (r: String)
    ensures
        sbytes(r) == crate::text::lower_seq(s.spec_bytes()),
{
    proof {
        crate::text::lemma_str_valid(s);
        crate::text::lemma_lower_valid(s.spec_bytes());
    }
    let v = crate::text::to_lower_vec(s.as_bytes());
    string_of(v.as_slice())
}

impl Loader {
    #[verifier::spinoff_prover]
    #[verifier::rlimit(100)]
    pub(crate) fn take_wrap(&mut self, key: &str, v: &RawConfigValue, field: &str) -> (r: Option<WrapStyle>)
        ensures
            match raw_string(raw_model(*v)) {
                None => r is None && final(self).model() == diag(old(self).model(), key.spec_bytes(), invalid_type_msg(key.spec_bytes(), "string".spec_bytes())),
                Some(s) => r == wrap_of(s) && (r is None ==> final(self).model() == diag(old(self).model(), key.spec_bytes(), invalid_value_msg(field.spec_bytes(), s, "cascade, vertical".spec_bytes()))) && (r is Some ==> final(self).model() == old(self).model()),
            },
            final(self).config == old(self).config,
    {
        match self.take_string(key, v) {
            None => None,
            Some(s) => {
                let r = wrap_of_bytes(s.as_str().as_bytes());
                if r.is_none() {
                    let m = invalid_value_text(field, s.as_str(), "cascade, vertical");
                    let kk = String::from_str(key);
                    self.push_diag(kk, m);
                }
                r
            },
        }
    }

    #[verifier::spinoff_prover]
    #[verifier::rlimit(100)]
    pub(crate) fn take_indent(&mut self, key: &str, v: &RawConfigValue, field: &str) -> (r: Option<IndentStyle>)
        ensures
            match raw_string(raw_model(*v)) {
                None => r is None && final(self).model() == diag(old(self).model(), key.spec_bytes(), invalid_type_msg(key.spec_bytes(), "string".spec_bytes())),
                Some(s) => r == indent_of(s) && (r is None ==> final(self).model() == diag(old(self).model(), key.spec_bytes(), invalid_value_msg(field.spec_bytes(), s, "space, tab".spec_bytes()))) && (r is Some ==> final(self).model() == old(self).model()),
            },
            final(self).config == old(self).config,
    {
        match self.take_string(key, v) {
            None => None,
            Some(s) => {
                let r = indent_of_bytes(s.as_str().as_bytes());
                if r.is_none() {
                    let m = invalid_value_text(field, s.as_str(), "space, tab");
                    let kk = String::from_str(key);
                    self.push_diag(kk, m);
                }
                r
            },
        }
    }

    #[verifier::spinoff_prover]
    #[verifier::rlimit(100)]
    pub(crate) fn take_nlk(&mut self, key: &str, v: &RawConfigValue, field: &str) -> (r: Option<NewLineKind>)
        ensures
            match raw_string(raw_model(*v)) {
                None => r is None && final(self).model() == diag(old(self).model(), key.spec_bytes(), invalid_type_msg(key.spec_bytes(), "string".spec_bytes())),
                Some(s) => r == nlk_of(s) && (r is None ==> final(self).model() == diag(old(self).model(), key.spec_bytes(), invalid_value_msg(field.spec_bytes(), s, "auto, lf, crlf".spec_bytes()))) && (r is Some ==> final(self).model() == old(self).model()),
            },
            final(self).config == old(self).config,
    {
        match self.take_string(key, v) {
            None => None,
            Some(s) => {
                let r = nlk_of_bytes(s.as_str().as_bytes());
                if r.is_none() {
                    let m = invalid_value_text(field, s.as_str(), "auto, lf, crlf");
                    let kk = String::from_str(key);
                    self.push_diag(kk, m);
                }
                r
            },
        }
    }

    #[verifier::spinoff_prover]
    #[verifier::rlimit(100)]
    pub(crate) fn take_case(&mut self, key: &str, v: &RawConfigValue, field: &str) -> (r: Option<CaseStyle>)
        ensures
            match raw_string(raw_model(*v)) {
                None => r is None && final(self).model() == diag(old(self).model(), key.spec_bytes(), invalid_type_msg(key.spec_bytes(), "string".spec_bytes())),
                Some(s) => r == case_of(s) && (r is None ==> final(self).model() == diag(old(self).model(), key.spec_bytes(), invalid_value_msg(field.spec_bytes(), s, "lower, upper, unchanged".spec_bytes()))) && (r is Some ==> final(self).model() == old(self).model()),
            },
            final(self).config == old(self).config,
    {
        match self.take_string(key, v) {
            None => None,
            Some(s) => {
                let r = case_of_bytes(s.as_str().as_bytes());
                if r.is_none() {
                    let m = invalid_value_text(field, s.as_str(), "lower, upper, unchanged");
                    let kk = String::from_str(key);
                    self.push_diag(kk, m);
                }
                r
            },
        }
    }

    #[verifier::spinoff_prover]
    #[verifier::rlimit(100)]
    pub(crate) fn take_sip(&mut self, key: &str, v: &RawConfigValue, field: &str) -> (r: Option<SpaceInsideParen>)
        ensures
            match raw_string(raw_model(*v)) {
                None => r is None && final(self).model() == diag(old(self).model(), key.spec_bytes(), invalid_type_msg(key.spec_bytes(), "string".spec_bytes())),
                Some(s) => r == sip_of(s) && (r is None ==> final(self).model() == diag(old(self).model(), key.spec_bytes(), invalid_value_msg(field.spec_bytes(), s, "insert, remove, preserve".spec_bytes()))) && (r is Some ==> final(self).model() == old(self).model()),
            },
            final(self).config == old(self).config,
    {
        match self.take_string(key, v) {
            None => None,
            Some(s) => {
                let r = sip_of_bytes(s.as_str().as_bytes());
                if r.is_none() {
                    let m = invalid_value_text(field, s.as_str(), "insert, remove, preserve");
                    let kk = String::from_str(key);
                    self.push_diag(kk, m);
                }
                r
            },
        }
    }

    #[verifier::spinoff_prover]
    #[verifier::rlimit(100)]
    pub(crate) fn take_cp(&mut self, key: &str, v: &RawConfigValue, field: &str) -> (r: Option<CommentPreservation>)
        ensures
            match raw_string(raw_model(*v)) {
                None => r is None && final(self).model() == diag(old(self).model(), key.spec_bytes(), invalid_type_msg(key.spec_bytes(), "string".spec_bytes())),
                Some(s) => r == cp_of(s) && (r is None ==> final(self).model() == diag(old(self).model(), key.spec_bytes(), invalid_value_msg(field.spec_bytes(), s, "preserve, reflow".spec_bytes()))) && (r is Some ==> final(self).model() == old(self).model()),
            },
            final(self).config == old(self).config,
    {
        match self.take_string(key, v) {
            None => None,
            Some(s) => {
                let r = cp_of_bytes(s.as_str().as_bytes());
                if r.is_none() {
                    let m = invalid_value_text(field, s.as_str(), "preserve, reflow");
                    let kk = String::from_str(key);
                    self.push_diag(kk, m);
                }
                r
            },
        }
    }

    #[verifier::spinoff_prover]
    #[verifier::rlimit(100)]
    pub(crate) fn take_eca(&mut self, key: &str, v: &RawConfigValue, field: &str) -> (r: Option<EndCommandArgs>)
        ensures
            match raw_string(raw_model(*v)) {
                None => r is None && final(self).model() == diag(old(self).model(), key.spec_bytes(), invalid_type_msg(key.spec_bytes(), "string".spec_bytes())),
                Some(s) => r == eca_of(s) && (r is None ==> final(self).model() == diag(old(self).model(), key.spec_bytes(), invalid_value_msg(field.spec_bytes(), s, "remove, preserve, match".spec_bytes()))) && (r is Some ==> final(self).model() == old(self).model()),
            },
            final(self).config == old(self).config,
    {
        match self.take_string(key, v) {
            None => None,
            Some(s) => {
                let r = eca_of_bytes(s.as_str().as_bytes());
                if r.is_none() {
                    let m = invalid_value_text(field, s.as_str(), "remove, preserve, match");
                    let kk = String::from_str(key);
                    self.push_diag(kk, m);
                }
                r
            },
        }
    }






    #[verifier::spinoff_prover]
    #[verifier::rlimit(100)]
    fn parse_indent_mode(&mut self, key: &str, value: &RawConfigValue)
        ensures
            final(self).model() == indent_mode(old(self).model(), key.spec_bytes(), raw_model(*value)),
    {
        match indent_word(value) {
            Some(true) => {
                self.set_tabs_mode(key);
            },
            Some(false) => {
                self.set_spaces_mode(key);
            },
            None => {
                if let Some(w) = value.as_u8_number() {
                    self.set_width_mode(key, w);
                } else {
                    self.push_invalid_type(key, "string ('tabs'/'spaces') or integer for indent width");
                }
            },
        }
    }

    /// Indentation by tabs, recorded as `tabs`.
    #[verifier::spinoff_prover]
    #[verifier::rlimit(100)]
    fn set_tabs_mode(&mut self, key: &str)
        ensures
            final(self).model() == tabs_mode(old(self).model(), key.spec_bytes()),
    {
        proof {
            reveal(tabs_mode);
        }
        self.config.set_indentation(true, IndentStyle::Tab);
        self.record_override(key, String::from_str("tabs"));
    }

    /// Indentation by spaces, recorded as `spaces`.
    #[verifier::spinoff_prover]
    #[verifier::rlimit(100)]
    fn set_spaces_mode(&mut self, key: &str)
        ensures
            final(self).model() == spaces_mode(old(self).model(), key.spec_bytes()),
    {
        proof {
            reveal(spaces_mode);
        }
        self.config.set_indentation(false, IndentStyle::Space);
        self.record_override(key, String::from_str("spaces"));
    }

    /// Indentation by `w` spaces, recorded as the number.
    #[verifier::spinoff_prover]
    #[verifier::rlimit(100)]
    fn set_width_mode(&mut self, key: &str, w: u8)
        ensures
            final(self).model() == width_mode(old(self).model(), key.spec_bytes(), w),
    {
        proof {
            reveal(width_mode);
        }
        self.config.set_indent_width(w);
        self.config.set_indentation(false, IndentStyle::Space);
        self.record_override(key, dec_string(w as u64));
    }

    /// Applies the options of one command's table, each under the key
    /// `scoped.option`, to a table that starts empty.
    #[verifier::spinoff_prover]
    #[verifier::rlimit(100)]
    fn apply_command_table(&mut self, scoped: &str, opts: &Vec<(String, JsonValue)>) -> (r: CommandConfiguration)
        ensures
            (final(self).model(), r.model()) == cmd_options(old(self).model(), default_cmd(), scoped.spec_bytes(), entries_model(*opts, 0)),
            final(self).config == old(self).config,
    {
        let ghost st1 = self.model();
        let ghost om = entries_model(*opts, 0);
        proof {
            lemma_entries_model(*opts, 0);
            assert(om.take(0) =~= Seq::<(Seq<u8>, JsonModel)>::empty());
        }
        let mut cfg = CommandConfiguration::default();
        let mut j: usize = 0;
        while j < opts.len()
            invariant
                j <= opts@.len(),
                om == entries_model(*opts, 0),
                om.len() == opts@.len(),
                forall|t: int| 0 <= t < opts@.len() ==> #[trigger] om[t] == (sbytes(opts@[t].0), json_model(opts@[t].1)),
                self.config == old(self).config,
                (self.model(), cfg.model()) == cmd_options(st1, default_cmd(), scoped.spec_bytes(), om.take(j as int)),
            decreases opts@.len() - j,
        {
            let sk = cat3(scoped, ".", opts[j].0.as_str());
            proof {
                assert(om.take(j + 1).drop_last() =~= om.take(j as int));
                assert(om.take(j + 1).last() == om[j as int]);
            }
            self.apply_per_command_value(sk.as_str(), opts[j].0.as_str(), &RawConfigValue::Json(&opts[j].1), &mut cfg);
            j = j + 1;
        }
        proof {
            assert(om.take(opts@.len() as int) =~= om);
        }
        cfg
    }

    /// Sets command `k`'s table in the configuration.
    #[verifier::spinoff_prover]
    #[verifier::rlimit(100)]
    fn put_command_table(&mut self, k: String, c: CommandConfiguration)
        ensures
            final(self).model() == with_tables(old(self).model(), pcc_put(old(self).model().config.per_command_config, sbytes(k), c.model())),
    {
        self.config.insert_command_table(k, c);
    }

    /// Records `key` with the number of commands that have a table.
    #[verifier::spinoff_prover]
    #[verifier::rlimit(100)]
    fn record_table_count(&mut self, key: &str)
        ensures
            final(self).model() == record(old(self).model(), key.spec_bytes(), dec(old(self).model().config.per_command_config.len()) + " command override(s)".spec_bytes()),
    {
        proof {
            self.config.lemma_tables_len();
        }
        let n = self.config.per_command_config.len();
        let shown = dec_string(n as u64);
        proof {
            crate::text::lemma_str_valid(" command override(s)");
            lemma_dec_ascii(n as nat);
            crate::text::lemma_ascii_valid_utf8(dec(n as nat));
        }
        let msg = join_text(shown.as_str().as_bytes(), " command override(s)".as_bytes());
        proof {
            crate::text::lemma_valid_concat(dec(n as nat), " command override(s)".spec_bytes());
        }
        let msg = string_of(msg.as_slice());
        self.record_override(key, msg);
    }

    /// Reads the commands' tables of an entry under `key`: each command's
    /// table (under its lower-cased name), or a diagnostic for a command whose
    /// value is no table.
    #[verifier::spinoff_prover]
    #[verifier::rlimit(100)]
    fn parse_command_tables(&mut self, key: &str, entries: &Vec<(String, JsonValue)>) -> (r: Vec<(String, CommandConfiguration)>)
        ensures
            (final(self).model(), crate::config::pcc_model(r@)) == cmd_entries(old(self).model(), seq![], key.spec_bytes(), entries_model(*entries, 0)),
    {
        let ghost st0 = self.model();
        let ghost em = entries_model(*entries, 0);
        proof {
            lemma_entries_model(*entries, 0);
            assert(em.take(0) =~= Seq::<(Seq<u8>, JsonModel)>::empty());
            reveal(crate::config::pcc_model);
            assert(crate::config::pcc_model(Seq::<(String, CommandConfiguration)>::empty()) =~= Seq::<(Seq<u8>, CmdModel)>::empty());
        }
        let mut parsed: Vec<(String, CommandConfiguration)> = Vec::new();
        let mut i: usize = 0;
        while i < entries.len()
            invariant
                i <= entries@.len(),
                em == entries_model(*entries, 0),
                em.len() == entries@.len(),
                forall|t: int| 0 <= t < entries@.len() ==> #[trigger] em[t] == (sbytes(entries@[t].0), json_model(entries@[t].1)),
                (self.model(), crate::config::pcc_model(parsed@)) == cmd_entries(st0, seq![], key.spec_bytes(), em.take(i as int)),
            decreases entries@.len() - i,
        {
            let name = &entries[i].0;
            let scoped = cat3(key, ".", name.as_str());
            proof {
                assert(em.take(i + 1).drop_last() =~= em.take(i as int));
                assert(em.take(i + 1).last() == em[i as int]);
            }
            match &entries[i].1 {
                JsonValue::Object(opts) => {
                    let cfg = self.apply_command_table(scoped.as_str(), opts);
                    proof {
                        assert(json_model(entries@[i as int].1) == JsonModel::Object(entries_model(*opts, 0)));
                    }
                    let lname = lower_string(name.as_str());
                    pcc_insert(&mut parsed, lname, cfg);
                },
                _ => {
                    proof {
                        assert(!(json_model(entries@[i as int].1) is Object));
                    }
                    self.push_invalid_type(scoped.as_str(), "table/object");
                },
            }
            i = i + 1;
        }
        proof {
            assert(em.take(entries@.len() as int) =~= em);
        }
        parsed
    }

    /// Puts each command's table into the configuration's, in order.
    #[verifier::spinoff_prover]
    #[verifier::rlimit(100)]
    fn merge_command_tables(&mut self, parsed: &Vec<(String, CommandConfiguration)>)
        ensures
            final(self).model() == with_tables(old(self).model(), pcc_merge(old(self).model().config.per_command_config, crate::config::pcc_model(parsed@))),
    {
        let ghost st1 = self.model();
        let ghost pm = crate::config::pcc_model(parsed@);
        let mut p: usize = 0;
        proof {
            reveal(crate::config::pcc_model);
            assert(pm.take(0) =~= Seq::<(Seq<u8>, CmdModel)>::empty());
            assert(with_tables(st1, st1.config.per_command_config) == st1);
        }
        while p < parsed.len()
            invariant
                p <= parsed@.len(),
                pm == crate::config::pcc_model(parsed@),
                pm.len() == parsed@.len(),
                self.model() == with_tables(st1, pcc_merge(st1.config.per_command_config, pm.take(p as int))),
            decreases parsed@.len() - p,
        {
            let k = parsed[p].0.clone();
            let c = parsed[p].1.copy();
            proof {
                reveal(crate::config::pcc_model);
                assert(pm.take(p + 1).drop_last() =~= pm.take(p as int));
                assert(pm.take(p + 1).last() == pm[p as int]);
            }
            self.put_command_table(k, c);
            p = p + 1;
        }
        proof {
            assert(pm.take(parsed@.len() as int) =~= pm);
        }
    }

    /// Applies a table of commands' tables; see `per_command`.
    #[verifier::spinoff_prover]
    #[verifier::rlimit(100)]
    fn parse_per_command_config(&mut self, key: &str, value: &RawConfigValue)
        ensures
            final(self).model() == per_command(old(self).model(), key.spec_bytes(), raw_model(*value)),
    {
        let entries = match value {
            RawConfigValue::Json(JsonValue::Object(m)) => m,
            _ => {
                self.push_invalid_type(key, "table/object");
                return;
            },
        };
        let parsed = self.parse_command_tables(key, entries);
        self.merge_command_tables(&parsed);
        self.record_table_count(key);
    }
}

impl Loader {
    #[verifier::spinoff_prover]
    #[verifier::rlimit(100)]
    fn set_line_width(&mut self, key: &str, x: u32)
        ensures
            final(self).model() == record(with_config(old(self).model(), ConfigModel { line_width: x, ..old(self).model().config }), key.spec_bytes(), dec(x as nat)),
    {
        self.config.set_line_width(x);
        self.record_override(key, dec_string(x as u64));
    }

    #[verifier::spinoff_prover]
    #[verifier::rlimit(100)]
    fn set_wrap_style(&mut self, key: &str, x: WrapStyle)
        ensures
            final(self).model() == record(with_config(old(self).model(), ConfigModel { wrap_style: x, ..old(self).model().config }), key.spec_bytes(), wrap_name(x)),
    {
        self.config.set_wrap_style(x);
        self.record_override(key, String::from_str(wrap_text(x)));
    }

    #[verifier::spinoff_prover]
    #[verifier::rlimit(100)]
    fn set_first_arg_same_line(&mut self, key: &str, x: bool)
        ensures
            final(self).model() == record(with_config(old(self).model(), ConfigModel { first_arg_same_line: x, ..old(self).model().config }), key.spec_bytes(), bool_name(x)),
    {
        self.config.set_first_arg_same_line(x);
        self.record_override(key, bool_string(x));
    }

    #[verifier::spinoff_prover]
    #[verifier::rlimit(100)]
    fn set_wrap_arg_threshold(&mut self, key: &str, x: u32)
        ensures
            final(self).model() == record(with_config(old(self).model(), ConfigModel { wrap_arg_threshold: x, ..old(self).model().config }), key.spec_bytes(), dec(x as nat)),
    {
        self.config.set_wrap_arg_threshold(x);
        self.record_override(key, dec_string(x as u64));
    }

    #[verifier::spinoff_prover]
    #[verifier::rlimit(100)]
    fn set_indent_width(&mut self, key: &str, x: u8)
        ensures
            final(self).model() == record(with_config(old(self).model(), ConfigModel { indent_width: x, ..old(self).model().config }), key.spec_bytes(), dec(x as nat)),
    {
        self.config.set_indent_width(x);
        self.record_override(key, dec_string(x as u64));
    }

    #[verifier::spinoff_prover]
    #[verifier::rlimit(100)]
    fn set_use_tabs(&mut self, key: &str, x: bool)
        ensures
            final(self).model() == record(with_config(old(self).model(), ConfigModel { use_tabs: x, indent_style: if x { IndentStyle::Tab } else { IndentStyle::Space }, ..old(self).model().config }), key.spec_bytes(), bool_name(x)),
    {
        self.config.set_indentation(x, if x { IndentStyle::Tab } else { IndentStyle::Space });
        self.record_override(key, bool_string(x));
    }

    #[verifier::spinoff_prover]
    #[verifier::rlimit(100)]
    fn set_indent_style(&mut self, key: &str, x: IndentStyle)
        ensures
            final(self).model() == record(with_config(old(self).model(), ConfigModel { indent_style: x, use_tabs: x == IndentStyle::Tab, ..old(self).model().config }), key.spec_bytes(), indent_name(x)),
    {
        let tabs = match x { IndentStyle::Tab => true, IndentStyle::Space => false };
        self.config.set_indentation(tabs, x);
        self.record_override(key, String::from_str(indent_text(x)));
    }

    #[verifier::spinoff_prover]
    #[verifier::rlimit(100)]
    fn set_continuation_indent_width(&mut self, key: &str, x: Option<u8>)
        ensures
            final(self).model() == record(with_config(old(self).model(), ConfigModel { continuation_indent_width: x, ..old(self).model().config }), key.spec_bytes(), nullable_name(opt_nat8(x))),
    {
        self.config.set_continuation_indent_width(x);
        self.record_override(key, nullable_u8_string(x));
    }

    #[verifier::spinoff_prover]
    #[verifier::rlimit(100)]
    fn set_new_line_kind(&mut self, key: &str, x: NewLineKind)
        ensures
            final(self).model() == record(with_config(old(self).model(), ConfigModel { new_line_kind: x, ..old(self).model().config }), key.spec_bytes(), nlk_name(x)),
    {
        self.config.set_new_line_kind(x);
        self.record_override(key, String::from_str(nlk_text(x)));
    }

    #[verifier::spinoff_prover]
    #[verifier::rlimit(100)]
    fn set_final_newline(&mut self, key: &str, x: bool)
        ensures
            final(self).model() == record(with_config(old(self).model(), ConfigModel { final_newline: x, ..old(self).model().config }), key.spec_bytes(), bool_name(x)),
    {
        self.config.set_final_newline(x);
        self.record_override(key, bool_string(x));
    }

    #[verifier::spinoff_prover]
    #[verifier::rlimit(100)]
    fn set_max_blank_lines(&mut self, key: &str, x: u8)
        ensures
            final(self).model() == record(with_config(old(self).model(), ConfigModel { max_blank_lines: x, ..old(self).model().config }), key.spec_bytes(), dec(x as nat)),
    {
        self.config.set_max_blank_lines(x);
        self.record_override(key, dec_string(x as u64));
    }

    #[verifier::spinoff_prover]
    #[verifier::rlimit(100)]
    fn set_min_blank_lines_between_blocks(&mut self, key: &str, x: u8)
        ensures
            final(self).model() == record(with_config(old(self).model(), ConfigModel { min_blank_lines_between_blocks: x, ..old(self).model().config }), key.spec_bytes(), dec(x as nat)),
    {
        self.config.set_min_blank_lines_between_blocks(x);
        self.record_override(key, dec_string(x as u64));
    }

    #[verifier::spinoff_prover]
    #[verifier::rlimit(100)]
    fn set_blank_line_between_sections(&mut self, key: &str, x: bool)
        ensures
            final(self).model() == record(with_config(old(self).model(), ConfigModel { blank_line_between_sections: x, ..old(self).model().config }), key.spec_bytes(), bool_name(x)),
    {
        self.config.set_blank_line_between_sections(x);
        self.record_override(key, bool_string(x));
    }

    #[verifier::spinoff_prover]
    #[verifier::rlimit(100)]
    fn set_command_case(&mut self, key: &str, x: CaseStyle)
        ensures
            final(self).model() == record(with_config(old(self).model(), ConfigModel { command_case: x, ..old(self).model().config }), key.spec_bytes(), case_name(x)),
    {
        self.config.set_command_case(x);
        self.record_override(key, String::from_str(case_text(x)));
    }

    #[verifier::spinoff_prover]
    #[verifier::rlimit(100)]
    fn set_keyword_case(&mut self, key: &str, x: CaseStyle)
        ensures
            final(self).model() == record(with_config(old(self).model(), ConfigModel { keyword_case: x, ..old(self).model().config }), key.spec_bytes(), case_name(x)),
    {
        self.config.set_keyword_case(x);
        self.record_override(key, String::from_str(case_text(x)));
    }

    #[verifier::spinoff_prover]
    #[verifier::rlimit(100)]
    fn set_custom_keywords(&mut self, key: &str, x: Vec<String>)
        ensures
            final(self).model() == record(with_config(old(self).model(), ConfigModel { custom_keywords: strings_model(x@), ..old(self).model().config }), key.spec_bytes(), list_text(strings_model(x@))),
    {
        let shown = list_string(&x);
        proof {
            lemma_strs_of(x@);
        }
        self.config.set_custom_keywords(x);
        self.record_override(key, shown);
    }

    #[verifier::spinoff_prover]
    #[verifier::rlimit(100)]
    fn set_literal_case(&mut self, key: &str, x: CaseStyle)
        ensures
            final(self).model() == record(with_config(old(self).model(), ConfigModel { literal_case: x, ..old(self).model().config }), key.spec_bytes(), case_name(x)),
    {
        self.config.set_literal_case(x);
        self.record_override(key, String::from_str(case_text(x)));
    }

    #[verifier::spinoff_prover]
    #[verifier::rlimit(100)]
    fn set_closing_paren_newline(&mut self, key: &str, x: bool)
        ensures
            final(self).model() == record(with_config(old(self).model(), ConfigModel { closing_paren_newline: x, ..old(self).model().config }), key.spec_bytes(), bool_name(x)),
    {
        self.config.set_closing_paren_newline(x);
        self.record_override(key, bool_string(x));
    }

    #[verifier::spinoff_prover]
    #[verifier::rlimit(100)]
    fn set_space_before_paren(&mut self, key: &str, x: Result<bool, Vec<String>>)
        ensures
            final(self).model() == record(with_config(old(self).model(), ConfigModel { space_before_paren: space_of(bool_or_list_model(x)), ..old(self).model().config }), key.spec_bytes(), bool_or_list_name(bool_or_list_model(x))),
    {
        let shown = bool_or_list_string(&x);
        proof {
            if x is Err {
                lemma_strs_of(x->Err_0@);
            }
        }
        self.config.set_space_before_paren(match x {
            Ok(true) => SpaceBeforeParen::Always,
            Ok(false) => SpaceBeforeParen::Never,
            Err(l) => SpaceBeforeParen::CommandList(l),
        });
        self.record_override(key, shown);
    }

    #[verifier::spinoff_prover]
    #[verifier::rlimit(100)]
    fn set_space_inside_paren(&mut self, key: &str, x: SpaceInsideParen)
        ensures
            final(self).model() == record(with_config(old(self).model(), ConfigModel { space_inside_paren: x, ..old(self).model().config }), key.spec_bytes(), sip_name(x)),
    {
        self.config.set_space_inside_paren(x);
        self.record_override(key, String::from_str(sip_text(x)));
    }

    #[verifier::spinoff_prover]
    #[verifier::rlimit(100)]
    fn set_comment_preservation(&mut self, key: &str, x: CommentPreservation)
        ensures
            final(self).model() == record(with_config(old(self).model(), ConfigModel { comment_preservation: x, ..old(self).model().config }), key.spec_bytes(), cp_name(x)),
    {
        self.config.set_comment_preservation(x);
        self.record_override(key, String::from_str(cp_text(x)));
    }

    #[verifier::spinoff_prover]
    #[verifier::rlimit(100)]
    fn set_comment_width(&mut self, key: &str, x: Option<u32>)
        ensures
            final(self).model() == record(with_config(old(self).model(), ConfigModel { comment_width: x, ..old(self).model().config }), key.spec_bytes(), nullable_name(opt_nat32(x))),
    {
        self.config.set_comment_width(x);
        self.record_override(key, nullable_u32_string(x));
    }

    #[verifier::spinoff_prover]
    #[verifier::rlimit(100)]
    fn set_align_trailing_comments(&mut self, key: &str, x: bool)
        ensures
            final(self).model() == record(with_config(old(self).model(), ConfigModel { align_trailing_comments: x, ..old(self).model().config }), key.spec_bytes(), bool_name(x)),
    {
        self.config.set_align_trailing_comments(x);
        self.record_override(key, bool_string(x));
    }

    #[verifier::spinoff_prover]
    #[verifier::rlimit(100)]
    fn set_comment_gap(&mut self, key: &str, x: u8)
        ensures
            final(self).model() == record(with_config(old(self).model(), ConfigModel { comment_gap: x, ..old(self).model().config }), key.spec_bytes(), dec(x as nat)),
    {
        self.config.set_comment_gap(x);
        self.record_override(key, dec_string(x as u64));
    }

    #[verifier::spinoff_prover]
    #[verifier::rlimit(100)]
    fn set_trim_trailing_whitespace(&mut self, key: &str, x: bool)
        ensures
            final(self).model() == record(with_config(old(self).model(), ConfigModel { trim_trailing_whitespace: x, ..old(self).model().config }), key.spec_bytes(), bool_name(x)),
    {
        self.config.set_trim_trailing_whitespace(x);
        self.record_override(key, bool_string(x));
    }

    #[verifier::spinoff_prover]
    #[verifier::rlimit(100)]
    fn set_collapse_spaces(&mut self, key: &str, x: bool)
        ensures
            final(self).model() == record(with_config(old(self).model(), ConfigModel { collapse_spaces: x, ..old(self).model().config }), key.spec_bytes(), bool_name(x)),
    {
        self.config.set_collapse_spaces(x);
        self.record_override(key, bool_string(x));
    }

    #[verifier::spinoff_prover]
    #[verifier::rlimit(100)]
    fn set_align_property_values(&mut self, key: &str, x: bool)
        ensures
            final(self).model() == record(with_config(old(self).model(), ConfigModel { align_property_values: x, ..old(self).model().config }), key.spec_bytes(), bool_name(x)),
    {
        self.config.set_align_property_values(x);
        self.record_override(key, bool_string(x));
    }

    #[verifier::spinoff_prover]
    #[verifier::rlimit(100)]
    fn set_align_consecutive_set(&mut self, key: &str, x: bool)
        ensures
            final(self).model() == record(with_config(old(self).model(), ConfigModel { align_consecutive_set: x, ..old(self).model().config }), key.spec_bytes(), bool_name(x)),
    {
        self.config.set_align_consecutive_set(x);
        self.record_override(key, bool_string(x));
    }

    #[verifier::spinoff_prover]
    #[verifier::rlimit(100)]
    fn set_align_arg_groups(&mut self, key: &str, x: bool)
        ensures
            final(self).model() == record(with_config(old(self).model(), ConfigModel { align_arg_groups: x, ..old(self).model().config }), key.spec_bytes(), bool_name(x)),
    {
        self.config.set_align_arg_groups(x);
        self.record_override(key, bool_string(x));
    }

    #[verifier::spinoff_prover]
    #[verifier::rlimit(100)]
    fn set_sort_arguments(&mut self, key: &str, x: Result<bool, Vec<String>>)
        ensures
            final(self).model() == record(with_config(old(self).model(), ConfigModel { sort_lists: bool_or_list_model(x) == Ok::<bool, Seq<Seq<u8>>>(true), sort_arguments: sort_of(bool_or_list_model(x)), sort_arguments_explicit: true, ..old(self).model().config }), key.spec_bytes(), bool_or_list_name(bool_or_list_model(x))),
    {
        let shown = bool_or_list_string(&x);
        proof {
            if x is Err {
                lemma_strs_of(x->Err_0@);
            }
        }
        let lists = match &x {
            Ok(true) => true,
            _ => false,
        };
        self.config.set_sorting(lists, match x {
            Ok(true) => SortArguments::Enabled,
            Ok(false) => SortArguments::Disabled,
            Err(l) => SortArguments::CommandList(l),
        });
        self.record_override(key, shown);
    }

    #[verifier::spinoff_prover]
    #[verifier::rlimit(100)]
    fn set_sort_keyword_sections(&mut self, key: &str, x: bool)
        ensures
            final(self).model() == record(with_config(old(self).model(), ConfigModel { sort_keyword_sections: x, sort_keyword_sections_explicit: true, ..old(self).model().config }), key.spec_bytes(), bool_name(x)),
    {
        self.config.set_sort_keyword_sections(x);
        self.record_override(key, bool_string(x));
    }

    #[verifier::spinoff_prover]
    #[verifier::rlimit(100)]
    fn set_disable_formatting(&mut self, key: &str, x: bool)
        ensures
            final(self).model() == record(with_config(old(self).model(), ConfigModel { disable_formatting: x, ..old(self).model().config }), key.spec_bytes(), bool_name(x)),
    {
        self.config.set_disable_formatting(x);
        self.record_override(key, bool_string(x));
    }

    #[verifier::spinoff_prover]
    #[verifier::rlimit(100)]
    fn set_ignore_patterns(&mut self, key: &str, x: Vec<String>)
        ensures
            final(self).model() == record(with_config(old(self).model(), ConfigModel { ignore_patterns: strings_model(x@), ..old(self).model().config }), key.spec_bytes(), list_text(strings_model(x@))),
    {
        let shown = list_string(&x);
        proof {
            lemma_strs_of(x@);
        }
        self.config.set_ignore_patterns(x);
        self.record_override(key, shown);
    }

    #[verifier::spinoff_prover]
    #[verifier::rlimit(100)]
    fn set_ignore_commands(&mut self, key: &str, x: Vec<String>)
        ensures
            final(self).model() == record(with_config(old(self).model(), ConfigModel { ignore_commands: strings_model(x@), ..old(self).model().config }), key.spec_bytes(), list_text(strings_model(x@))),
    {
        let shown = list_string(&x);
        proof {
            lemma_strs_of(x@);
        }
        self.config.set_ignore_commands(x);
        self.record_override(key, shown);
    }

    #[verifier::spinoff_prover]
    #[verifier::rlimit(100)]
    fn set_indent_block_body(&mut self, key: &str, x: bool)
        ensures
            final(self).model() == record(with_config(old(self).model(), ConfigModel { indent_block_body: x, ..old(self).model().config }), key.spec_bytes(), bool_name(x)),
    {
        self.config.set_indent_block_body(x);
        self.record_override(key, bool_string(x));
    }

    #[verifier::spinoff_prover]
    #[verifier::rlimit(100)]
    fn set_end_command_args(&mut self, key: &str, x: EndCommandArgs)
        ensures
            final(self).model() == record(with_config(old(self).model(), ConfigModel { end_command_args: x, ..old(self).model().config }), key.spec_bytes(), eca_name(x)),
    {
        self.config.set_end_command_args(x);
        self.record_override(key, String::from_str(eca_text(x)));
    }

    #[verifier::spinoff_prover]
    #[verifier::rlimit(100)]
    fn set_extends(&mut self, key: &str, x: String)
        ensures
            final(self).model() == record(with_config(old(self).model(), ConfigModel { extends: Some(sbytes(x)), ..old(self).model().config }), key.spec_bytes(), sbytes(x)),
    {
        let shown = x.clone();
        self.config.set_extends(x);
        self.record_override(key, shown);
    }

    #[verifier::spinoff_prover]
    #[verifier::rlimit(100)]
    fn apply_layout_key(&mut self, ck: CanonicalKey, key: &str, value: &RawConfigValue)
        requires
            key_group(ck) == 1,
        ensures
            final(self).model() == apply_key(old(self).model(), ck, key.spec_bytes(), raw_model(*value)),
    {
        match ck {
            CanonicalKey::LineWidth => self.apply_line_width(key, value),
            CanonicalKey::WrapStyle => self.apply_wrap_style(key, value),
            CanonicalKey::FirstArgSameLine => self.apply_first_arg_same_line(key, value),
            CanonicalKey::WrapArgThreshold => self.apply_wrap_arg_threshold(key, value),
            CanonicalKey::IndentWidth => self.apply_indent_width(key, value),
            CanonicalKey::UseTabs => self.apply_use_tabs(key, value),
            CanonicalKey::IndentStyle => self.apply_indent_style(key, value),
            CanonicalKey::ContinuationIndentWidth => self.apply_continuation_indent_width(key, value),
            CanonicalKey::NewLineKind => self.apply_new_line_kind(key, value),
            CanonicalKey::FinalNewline => self.apply_final_newline(key, value),
            _ => {},
        }
    }

    #[verifier::spinoff_prover]
    #[verifier::rlimit(100)]
    fn apply_spacing_key(&mut self, ck: CanonicalKey, key: &str, value: &RawConfigValue)
        requires
            key_group(ck) == 2,
        ensures
            final(self).model() == apply_key(old(self).model(), ck, key.spec_bytes(), raw_model(*value)),
    {
        match ck {
            CanonicalKey::MaxBlankLines => self.apply_max_blank_lines(key, value),
            CanonicalKey::MinBlankLinesBetweenBlocks => self.apply_min_blank_lines_between_blocks(key, value),
            CanonicalKey::BlankLineBetweenSections => self.apply_blank_line_between_sections(key, value),
            CanonicalKey::CommandCase => self.apply_command_case(key, value),
            CanonicalKey::KeywordCase => self.apply_keyword_case(key, value),
            CanonicalKey::CustomKeywords => self.apply_custom_keywords(key, value),
            CanonicalKey::LiteralCase => self.apply_literal_case(key, value),
            CanonicalKey::ClosingParenNewline => self.apply_closing_paren_newline(key, value),
            CanonicalKey::SpaceBeforeParen => self.apply_space_before_paren(key, value),
            CanonicalKey::SpaceInsideParen => self.apply_space_inside_paren(key, value),
            _ => {},
        }
    }

    #[verifier::spinoff_prover]
    #[verifier::rlimit(100)]
    fn apply_comment_key(&mut self, ck: CanonicalKey, key: &str, value: &RawConfigValue)
        requires
            key_group(ck) == 3,
        ensures
            final(self).model() == apply_key(old(self).model(), ck, key.spec_bytes(), raw_model(*value)),
    {
        match ck {
            CanonicalKey::CommentPreservation => self.apply_comment_preservation(key, value),
            CanonicalKey::CommentWidth => self.apply_comment_width(key, value),
            CanonicalKey::AlignTrailingComments => self.apply_align_trailing_comments(key, value),
            CanonicalKey::CommentGap => self.apply_comment_gap(key, value),
            CanonicalKey::TrimTrailingWhitespace => self.apply_trim_trailing_whitespace(key, value),
            CanonicalKey::CollapseSpaces => self.apply_collapse_spaces(key, value),
            CanonicalKey::AlignPropertyValues => self.apply_align_property_values(key, value),
            CanonicalKey::AlignConsecutiveSet => self.apply_align_consecutive_set(key, value),
            CanonicalKey::AlignArgGroups => self.apply_align_arg_groups(key, value),
            _ => {},
        }
    }

    #[verifier::spinoff_prover]
    #[verifier::rlimit(100)]
    fn apply_other_key(&mut self, ck: CanonicalKey, key: &str, value: &RawConfigValue)
        requires
            key_group(ck) == 4,
        ensures
            final(self).model() == apply_key(old(self).model(), ck, key.spec_bytes(), raw_model(*value)),
    {
        match ck {
            CanonicalKey::PerCommandConfig => self.apply_per_command_config(key, value),
            CanonicalKey::SortArguments => self.apply_sort_arguments(key, value),
            CanonicalKey::SortKeywordSections => self.apply_sort_keyword_sections(key, value),
            CanonicalKey::DisableFormatting => self.apply_disable_formatting(key, value),
            CanonicalKey::IgnorePatterns => self.apply_ignore_patterns(key, value),
            CanonicalKey::IgnoreCommands => self.apply_ignore_commands(key, value),
            CanonicalKey::IndentBlockBody => self.apply_indent_block_body(key, value),
            CanonicalKey::EndCommandArgs => self.apply_end_command_args(key, value),
            CanonicalKey::Extends => self.apply_extends(key, value),
            CanonicalKey::IndentMode => self.apply_indent_mode(key, value),
            _ => {},
        }
    }

    /// Applies one configuration entry; see `apply_raw`.
    #[verifier::spinoff_prover]
    #[verifier::rlimit(100)]
    pub fn apply_raw_value(&mut self, key: &str, value: &RawConfigValue)
        ensures
            final(self).model() == apply_raw(old(self).model(), key.spec_bytes(), raw_model(*value)),
    {
        match canonical_key(key) {
            None => self.push_unknown_key(key),
            Some(ck) => {
                match ck {
                CanonicalKey::LineWidth | CanonicalKey::WrapStyle | CanonicalKey::FirstArgSameLine | CanonicalKey::WrapArgThreshold | CanonicalKey::IndentWidth | CanonicalKey::UseTabs | CanonicalKey::IndentStyle | CanonicalKey::ContinuationIndentWidth | CanonicalKey::NewLineKind | CanonicalKey::FinalNewline => self.apply_layout_key(ck, key, value),
                CanonicalKey::MaxBlankLines | CanonicalKey::MinBlankLinesBetweenBlocks | CanonicalKey::BlankLineBetweenSections | CanonicalKey::CommandCase | CanonicalKey::KeywordCase | CanonicalKey::CustomKeywords | CanonicalKey::LiteralCase | CanonicalKey::ClosingParenNewline | CanonicalKey::SpaceBeforeParen | CanonicalKey::SpaceInsideParen => self.apply_spacing_key(ck, key, value),
                CanonicalKey::CommentPreservation | CanonicalKey::CommentWidth | CanonicalKey::AlignTrailingComments | CanonicalKey::CommentGap | CanonicalKey::TrimTrailingWhitespace | CanonicalKey::CollapseSpaces | CanonicalKey::AlignPropertyValues | CanonicalKey::AlignConsecutiveSet | CanonicalKey::AlignArgGroups => self.apply_comment_key(ck, key, value),
                CanonicalKey::PerCommandConfig | CanonicalKey::SortArguments | CanonicalKey::SortKeywordSections | CanonicalKey::DisableFormatting | CanonicalKey::IgnorePatterns | CanonicalKey::IgnoreCommands | CanonicalKey::IndentBlockBody | CanonicalKey::EndCommandArgs | CanonicalKey::Extends | CanonicalKey::IndentMode => self.apply_other_key(ck, key, value),
                }
            },
        }
    }
}

/// The default configuration's value.
pub open spec fn default_model() -> ConfigModel {
    ConfigModel {
        line_width: 80,
        wrap_style: WrapStyle::Cascade,
        first_arg_same_line: true,
        wrap_arg_threshold: 0,
        indent_width: 2,
        use_tabs: false,
        indent_style: IndentStyle::Space,
        continuation_indent_width: None,
        new_line_kind: NewLineKind::Auto,
        final_newline: true,
        max_blank_lines: 1,
        min_blank_lines_between_blocks: 0,
        blank_line_between_sections: false,
        command_case: CaseStyle::Lower,
        keyword_case: CaseStyle::Upper,
        custom_keywords: seq![],
        literal_case: CaseStyle::Preserve,
        closing_paren_newline: true,
        space_before_paren: crate::config::SpaceModel::Never,
        space_inside_paren: SpaceInsideParen::Remove,
        comment_preservation: CommentPreservation::Preserve,
        comment_width: None,
        align_trailing_comments: false,
        comment_gap: 1,
        trim_trailing_whitespace: true,
        collapse_spaces: true,
        align_property_values: false,
        align_consecutive_set: false,
        align_arg_groups: false,
        per_command_config: seq![],
        sort_lists: false,
        sort_arguments: crate::config::SortModel::Disabled,
        sort_arguments_explicit: false,
        sort_keyword_sections: false,
        sort_keyword_sections_explicit: false,
        disable_formatting: false,
        ignore_patterns: seq![],
        ignore_commands: seq![],
        indent_block_body: true,
        end_command_args: EndCommandArgs::Preserve,
        extends: None,
    }
}

/// The default configuration.
#[verifier::spinoff_prover]
#[verifier::rlimit(100)]
pub fn default_configuration() -> (c: Configuration)
    ensures
        c.model() == default_model(),
{
    let c = Configuration::default();
    proof {
        reveal(Configuration::model);
        reveal(crate::config::strs_of);
        reveal(crate::config::pcc_model);
        reveal(crate::config::space_model);
        reveal(crate::config::sort_model);
        assert(crate::config::strs_of(c.custom_keywords@) =~= Seq::<Seq<u8>>::empty());
        assert(crate::config::strs_of(c.ignore_patterns@) =~= Seq::<Seq<u8>>::empty());
        assert(crate::config::strs_of(c.ignore_commands@) =~= Seq::<Seq<u8>>::empty());
        assert(crate::config::pcc_model(c.per_command_config@) =~= Seq::<(Seq<u8>, CmdModel)>::empty());
    }
    c
}

/// What a loading gives: its configuration, diagnostics and overrides.
pub open spec fn result_model(r: ConfigLoadResult) -> LoadModel {
    LoadModel { config: r.config.model(), diagnostics: diags_model(r.diagnostics@), overrides: pairs_text(r.overrides@) }
}

/// A loading finished: its overrides stably sorted by key.
pub open spec fn finished(st: LoadModel) -> LoadModel {
    LoadModel { overrides: sorted_by_key(st.overrides), ..st }
}

impl Loader {
    /// The result, with the overrides sorted by key.
    pub fn finish(self) -> (r: ConfigLoadResult)
        ensures
            result_model(r) == finished(self.model()),
    {
        let o = sort_overrides(self.overrides);
        ConfigLoadResult { config: self.config, diagnostics: self.diagnostics, overrides: o }
    }
}

/// What a one-line header gives on the default configuration: a JSON
/// object's entries, else its `key: value` pairs as text.
pub open spec fn header_result(header: Seq<char>) -> LoadModel {
    let st = start_from(default_model());
    finished(match json_object_text(header) {
        Some(m) => apply_all(st, json_entries(m)),
        None => apply_all(st, text_entries(vstd::utf8::encode_utf8(header))),
    })
}

/// Parses a one-line header of overrides (a JSON object, or `key: value`
/// pairs) into a configuration with its diagnostics and overrides.
#[verifier::spinoff_prover]
#[verifier::rlimit(100)]
pub fn load_from_header(header: &str) -> (r: ConfigLoadResult)
    ensures
        result_model(r) == header_result(header@),
{
    let mut loader = Loader::new(default_configuration());
    let mut ks: Vec<CanonicalKey> = Vec::new();
    if let Some(m) = parse_json_object(header) {
        loader.apply_json_entries(&m, &mut ks);
        return loader.finish();
    }
    loader.apply_pairs(header, false, &mut ks);
    loader.finish()
}

/// The entries of a TOML table applied in order; an entry whose value could
/// not be turned into JSON gives a diagnostic with that error.
pub open spec fn apply_toml(st: LoadModel, t: Seq<(Seq<u8>, Result<JsonModel, Seq<u8>>)>) -> LoadModel
    decreases t.len(),
{
    if t.len() == 0 {
        st
    } else {
        let s1 = apply_toml(st, t.drop_last());
        match t.last().1 {
            Ok(j) => apply_raw(s1, t.last().0, RawModel::Json(j)),
            Err(e) => diag(s1, t.last().0, "Failed to convert TOML value to JSON: ".spec_bytes() + e),
        }
    }
}

/// What a TOML document gives on a base configuration: its table's entries
/// applied, or a diagnostic under `key` with the parse error.
pub open spec fn toml_result(base: ConfigModel, text: Seq<char>, key: Seq<u8>) -> LoadModel {
    let st = start_from(base);
    finished(match toml_table_text(text) {
        Ok(t) => apply_toml(st, t),
        Err(e) => diag(st, key, "Failed to parse TOML document: ".spec_bytes() + e),
    })
}

/// Parses a TOML document on top of a base configuration; diagnostics
/// are reported under `diagnostic_key`.
#[verifier::spinoff_prover]
#[verifier::rlimit(100)]
pub fn load_from_toml_with_base(toml: &str, base: Configuration, diagnostic_key: &str) -> (r: ConfigLoadResult)
    ensures
        result_model(r) == toml_result(base.model(), toml@, diagnostic_key.spec_bytes()),
{
    let mut loader = Loader::new(base);
    let t = match parse_toml_table(toml) {
        Ok(t) => t,
        Err(e) => {
            let msg = cat3("Failed to parse TOML document: ", e.as_str(), "");
            proof {
                reveal_strlit("");
                assert("".spec_bytes() =~= Seq::<u8>::empty());
                assert(sbytes(msg) =~= "Failed to parse TOML document: ".spec_bytes() + sbytes(e));
            }
            loader.push_message(diagnostic_key, msg);
            return loader.finish();
        },
    };
    loader.apply_toml_entries(&t);
    loader.finish()
}

/// A configuration file's document on top of its base: as `toml_result`,
/// with the file's relative ignore patterns rebased on its directory.
pub open spec fn file_result(base: ConfigModel, text: Seq<char>, key: Seq<u8>, dir: Seq<u8>) -> LoadModel {
    let st = start_from(base);
    finished(match toml_table_text(text) {
        Ok(t) => apply_toml(st, crate::resolve::rebased_entries(t, dir)),
        Err(e) => diag(st, key, "Failed to parse TOML document: ".spec_bytes() + e),
    })
}

/// See `file_result`.
#[verifier::spinoff_prover]
#[verifier::rlimit(100)]
pub fn load_file_toml(toml: &str, config_dir: &str, base: Configuration, diagnostic_key: &str) -> (r: ConfigLoadResult)
    ensures
        result_model(r) == file_result(base.model(), toml@, diagnostic_key.spec_bytes(), config_dir.spec_bytes()),
{
    let mut loader = Loader::new(base);
    let mut t = match parse_toml_table(toml) {
        Ok(t) => t,
        Err(e) => {
            let msg = cat3("Failed to parse TOML document: ", e.as_str(), "");
            proof {
                reveal_strlit("");
                assert("".spec_bytes() =~= Seq::<u8>::empty());
                assert(sbytes(msg) =~= "Failed to parse TOML document: ".spec_bytes() + sbytes(e));
            }
            loader.push_message(diagnostic_key, msg);
            return loader.finish();
        },
    };
    crate::resolve::rebase_ignore_entries(&mut t, config_dir);
    loader.apply_toml_entries(&t);
    loader.finish()
}

/// A configuration resolved elsewhere (from the command line), with no
/// diagnostics and no overrides.
#[verifier::spinoff_prover]
pub fn load_from_cli(config: Configuration) -> (r: ConfigLoadResult)
    ensures
        result_model(r) == (LoadModel { config: config.model(), diagnostics: seq![], overrides: seq![] }),
{
    let r = ConfigLoadResult { config, diagnostics: Vec::new(), overrides: Vec::new() };
    proof {
        reveal(diags_model);
        reveal(pairs_text);
        assert(diags_model(r.diagnostics@) =~= Seq::<DiagModel>::empty());
        assert(pairs_text(r.overrides@) =~= Seq::<(Seq<u8>, Seq<u8>)>::empty());
    }
    r
}

/// Parses a `.cmakefmt.toml` document on the default configuration.
pub fn load_from_toml(toml: &str) -> (r: ConfigLoadResult)
    ensures
        result_model(r) == toml_result(default_model(), toml@, "<toml>".spec_bytes()),
{
    load_from_toml_with_base(toml, default_configuration(), "<toml>")
}


impl Loader {
    /// Applies the entries of a TOML table in order; see `apply_toml`.
    #[verifier::spinoff_prover]
    #[verifier::rlimit(100)]
    fn apply_toml_entries(&mut self, t: &Vec<(String, Result<JsonValue, String>)>)
        ensures
            final(self).model() == apply_toml(old(self).model(), toml_entries_model(*t)),
    {
        let ghost tm = toml_entries_model(*t);
        let ghost st0 = self.model();
        let mut i: usize = 0;
        proof {
            assert(tm.take(0) =~= Seq::<(Seq<u8>, Result<JsonModel, Seq<u8>>)>::empty());
        }
        while i < t.len()
            invariant
                i <= t@.len(),
                tm == toml_entries_model(*t),
                tm.len() == t@.len(),
                self.model() == apply_toml(st0, tm.take(i as int)),
            decreases t@.len() - i,
        {
            proof {
                assert(tm.take(i + 1).drop_last() =~= tm.take(i as int));
                assert(tm.take(i + 1).last() == tm[i as int]);
            }
            let k = t[i].0.as_str();
            match &t[i].1 {
                Ok(j) => self.apply_raw_value(k, &RawConfigValue::Json(j)),
                Err(e) => {
                    let msg = cat3("Failed to convert TOML value to JSON: ", e.as_str(), "");
                    proof {
                        reveal_strlit("");
                        assert("".spec_bytes() =~= Seq::<u8>::empty());
                        assert(sbytes(msg) =~= "Failed to convert TOML value to JSON: ".spec_bytes() + sbytes(*e));
                    }
                    self.push_message(k, msg);
                },
            }
            i = i + 1;
        }
        proof {
            assert(tm.take(t@.len() as int) =~= tm);
        }
    }
}


/// Loads configuration from JSON entries on top of a base configuration,
/// for integrations that hold their settings as a JSON map.
#[verifier::spinoff_prover]
#[verifier::rlimit(100)]
pub fn load_from_json_map(map: Vec<(String, JsonValue)>, base: Configuration) -> (r: ConfigLoadResult)
    ensures
        result_model(r) == finished(apply_all(start_from(base.model()), json_entries(entries_model(map, 0)))),
{
    let mut loader = Loader::new(base);
    let mut ks: Vec<CanonicalKey> = Vec::new();
    loader.apply_json_entries(&map, &mut ks);
    loader.finish()
}

impl Loader {
    #[verifier::spinoff_prover]
    #[verifier::rlimit(100)]
    fn apply_line_width(&mut self, key: &str, value: &RawConfigValue)
        ensures
            final(self).model() == key_line_width(old(self).model(), key.spec_bytes(), raw_model(*value)),
    {
        if let Some(x) = self.take_u32(key, value) {
            self.set_line_width(key, x);
        }
    }

    #[verifier::spinoff_prover]
    #[verifier::rlimit(100)]
    fn apply_wrap_style(&mut self, key: &str, value: &RawConfigValue)
        ensures
            final(self).model() == key_wrap_style(old(self).model(), key.spec_bytes(), raw_model(*value)),
    {
        if let Some(x) = self.take_wrap(key, value, "wrapStyle") {
            self.set_wrap_style(key, x);
        }
    }

    #[verifier::spinoff_prover]
    #[verifier::rlimit(100)]
    fn apply_first_arg_same_line(&mut self, key: &str, value: &RawConfigValue)
        ensures
            final(self).model() == key_first_arg_same_line(old(self).model(), key.spec_bytes(), raw_model(*value)),
    {
        if let Some(x) = self.take_bool(key, value) {
            self.set_first_arg_same_line(key, x);
        }
    }

    #[verifier::spinoff_prover]
    #[verifier::rlimit(100)]
    fn apply_wrap_arg_threshold(&mut self, key: &str, value: &RawConfigValue)
        ensures
            final(self).model() == key_wrap_arg_threshold(old(self).model(), key.spec_bytes(), raw_model(*value)),
    {
        if let Some(x) = self.take_u32(key, value) {
            self.set_wrap_arg_threshold(key, x);
        }
    }

    #[verifier::spinoff_prover]
    #[verifier::rlimit(100)]
    fn apply_indent_width(&mut self, key: &str, value: &RawConfigValue)
        ensures
            final(self).model() == key_indent_width(old(self).model(), key.spec_bytes(), raw_model(*value)),
    {
        if let Some(x) = self.take_u8(key, value) {
            self.set_indent_width(key, x);
        }
    }

    #[verifier::spinoff_prover]
    #[verifier::rlimit(100)]
    fn apply_use_tabs(&mut self, key: &str, value: &RawConfigValue)
        ensures
            final(self).model() == key_use_tabs(old(self).model(), key.spec_bytes(), raw_model(*value)),
    {
        if let Some(x) = self.take_bool(key, value) {
            self.set_use_tabs(key, x);
        }
    }

    #[verifier::spinoff_prover]
    #[verifier::rlimit(100)]
    fn apply_indent_style(&mut self, key: &str, value: &RawConfigValue)
        ensures
            final(self).model() == key_indent_style(old(self).model(), key.spec_bytes(), raw_model(*value)),
    {
        if let Some(x) = self.take_indent(key, value, "indentStyle") {
            self.set_indent_style(key, x);
        }
    }

    #[verifier::spinoff_prover]
    #[verifier::rlimit(100)]
    fn apply_continuation_indent_width(&mut self, key: &str, value: &RawConfigValue)
        ensures
            final(self).model() == key_continuation_indent_width(old(self).model(), key.spec_bytes(), raw_model(*value)),
    {
        if let Some(x) = self.take_nullable_u8(key, value) {
            self.set_continuation_indent_width(key, x);
        }
    }

    #[verifier::spinoff_prover]
    #[verifier::rlimit(100)]
    fn apply_new_line_kind(&mut self, key: &str, value: &RawConfigValue)
        ensures
            final(self).model() == key_new_line_kind(old(self).model(), key.spec_bytes(), raw_model(*value)),
    {
        if let Some(x) = self.take_nlk(key, value, "lineEnding/newLineKind") {
            self.set_new_line_kind(key, x);
        }
    }

    #[verifier::spinoff_prover]
    #[verifier::rlimit(100)]
    fn apply_final_newline(&mut self, key: &str, value: &RawConfigValue)
        ensures
            final(self).model() == key_final_newline(old(self).model(), key.spec_bytes(), raw_model(*value)),
    {
        if let Some(x) = self.take_bool(key, value) {
            self.set_final_newline(key, x);
        }
    }

    #[verifier::spinoff_prover]
    #[verifier::rlimit(100)]
    fn apply_max_blank_lines(&mut self, key: &str, value: &RawConfigValue)
        ensures
            final(self).model() == key_max_blank_lines(old(self).model(), key.spec_bytes(), raw_model(*value)),
    {
        if let Some(x) = self.take_u8(key, value) {
            self.set_max_blank_lines(key, x);
        }
    }

    #[verifier::spinoff_prover]
    #[verifier::rlimit(100)]
    fn apply_min_blank_lines_between_blocks(&mut self, key: &str, value: &RawConfigValue)
        ensures
            final(self).model() == key_min_blank_lines_between_blocks(old(self).model(), key.spec_bytes(), raw_model(*value)),
    {
        if let Some(x) = self.take_u8(key, value) {
            self.set_min_blank_lines_between_blocks(key, x);
        }
    }

    #[verifier::spinoff_prover]
    #[verifier::rlimit(100)]
    fn apply_blank_line_between_sections(&mut self, key: &str, value: &RawConfigValue)
        ensures
            final(self).model() == key_blank_line_between_sections(old(self).model(), key.spec_bytes(), raw_model(*value)),
    {
        if let Some(x) = self.take_bool(key, value) {
            self.set_blank_line_between_sections(key, x);
        }
    }

    #[verifier::spinoff_prover]
    #[verifier::rlimit(100)]
    fn apply_command_case(&mut self, key: &str, value: &RawConfigValue)
        ensures
            final(self).model() == key_command_case(old(self).model(), key.spec_bytes(), raw_model(*value)),
    {
        if let Some(x) = self.take_case(key, value, "commandCase") {
            self.set_command_case(key, x);
        }
    }

    #[verifier::spinoff_prover]
    #[verifier::rlimit(100)]
    fn apply_keyword_case(&mut self, key: &str, value: &RawConfigValue)
        ensures
            final(self).model() == key_keyword_case(old(self).model(), key.spec_bytes(), raw_model(*value)),
    {
        if let Some(x) = self.take_case(key, value, "keywordCase") {
            self.set_keyword_case(key, x);
        }
    }

    #[verifier::spinoff_prover]
    #[verifier::rlimit(100)]
    fn apply_custom_keywords(&mut self, key: &str, value: &RawConfigValue)
        ensures
            final(self).model() == key_custom_keywords(old(self).model(), key.spec_bytes(), raw_model(*value)),
    {
        if let Some(x) = self.take_strings(key, value, false, "array of keyword strings") {
            self.set_custom_keywords(key, x);
        }
    }

    #[verifier::spinoff_prover]
    #[verifier::rlimit(100)]
    fn apply_literal_case(&mut self, key: &str, value: &RawConfigValue)
        ensures
            final(self).model() == key_literal_case(old(self).model(), key.spec_bytes(), raw_model(*value)),
    {
        if let Some(x) = self.take_case(key, value, "literalCase") {
            self.set_literal_case(key, x);
        }
    }

    #[verifier::spinoff_prover]
    #[verifier::rlimit(100)]
    fn apply_closing_paren_newline(&mut self, key: &str, value: &RawConfigValue)
        ensures
            final(self).model() == key_closing_paren_newline(old(self).model(), key.spec_bytes(), raw_model(*value)),
    {
        if let Some(x) = self.take_bool(key, value) {
            self.set_closing_paren_newline(key, x);
        }
    }

    #[verifier::spinoff_prover]
    #[verifier::rlimit(100)]
    fn apply_space_before_paren(&mut self, key: &str, value: &RawConfigValue)
        ensures
            final(self).model() == key_space_before_paren(old(self).model(), key.spec_bytes(), raw_model(*value)),
    {
        if let Some(x) = self.take_bool_or_list(key, value, "boolean or array of command name strings") {
            self.set_space_before_paren(key, x);
        }
    }

    #[verifier::spinoff_prover]
    #[verifier::rlimit(100)]
    fn apply_space_inside_paren(&mut self, key: &str, value: &RawConfigValue)
        ensures
            final(self).model() == key_space_inside_paren(old(self).model(), key.spec_bytes(), raw_model(*value)),
    {
        if let Some(x) = self.take_sip(key, value, "spaceInsideParen") {
            self.set_space_inside_paren(key, x);
        }
    }

    #[verifier::spinoff_prover]
    #[verifier::rlimit(100)]
    fn apply_comment_preservation(&mut self, key: &str, value: &RawConfigValue)
        ensures
            final(self).model() == key_comment_preservation(old(self).model(), key.spec_bytes(), raw_model(*value)),
    {
        if let Some(x) = self.take_cp(key, value, "commentPreservation") {
            self.set_comment_preservation(key, x);
        }
    }

    #[verifier::spinoff_prover]
    #[verifier::rlimit(100)]
    fn apply_comment_width(&mut self, key: &str, value: &RawConfigValue)
        ensures
            final(self).model() == key_comment_width(old(self).model(), key.spec_bytes(), raw_model(*value)),
    {
        if let Some(x) = self.take_nullable_u32(key, value) {
            self.set_comment_width(key, x);
        }
    }

    #[verifier::spinoff_prover]
    #[verifier::rlimit(100)]
    fn apply_align_trailing_comments(&mut self, key: &str, value: &RawConfigValue)
        ensures
            final(self).model() == key_align_trailing_comments(old(self).model(), key.spec_bytes(), raw_model(*value)),
    {
        if let Some(x) = self.take_bool(key, value) {
            self.set_align_trailing_comments(key, x);
        }
    }

    #[verifier::spinoff_prover]
    #[verifier::rlimit(100)]
    fn apply_comment_gap(&mut self, key: &str, value: &RawConfigValue)
        ensures
            final(self).model() == key_comment_gap(old(self).model(), key.spec_bytes(), raw_model(*value)),
    {
        if let Some(x) = self.take_u8(key, value) {
            self.set_comment_gap(key, x);
        }
    }

    #[verifier::spinoff_prover]
    #[verifier::rlimit(100)]
    fn apply_trim_trailing_whitespace(&mut self, key: &str, value: &RawConfigValue)
        ensures
            final(self).model() == key_trim_trailing_whitespace(old(self).model(), key.spec_bytes(), raw_model(*value)),
    {
        if let Some(x) = self.take_bool(key, value) {
            self.set_trim_trailing_whitespace(key, x);
        }
    }

    #[verifier::spinoff_prover]
    #[verifier::rlimit(100)]
    fn apply_collapse_spaces(&mut self, key: &str, value: &RawConfigValue)
        ensures
            final(self).model() == key_collapse_spaces(old(self).model(), key.spec_bytes(), raw_model(*value)),
    {
        if let Some(x) = self.take_bool(key, value) {
            self.set_collapse_spaces(key, x);
        }
    }

    #[verifier::spinoff_prover]
    #[verifier::rlimit(100)]
    fn apply_align_property_values(&mut self, key: &str, value: &RawConfigValue)
        ensures
            final(self).model() == key_align_property_values(old(self).model(), key.spec_bytes(), raw_model(*value)),
    {
        if let Some(x) = self.take_bool(key, value) {
            self.set_align_property_values(key, x);
        }
    }

    #[verifier::spinoff_prover]
    #[verifier::rlimit(100)]
    fn apply_align_consecutive_set(&mut self, key: &str, value: &RawConfigValue)
        ensures
            final(self).model() == key_align_consecutive_set(old(self).model(), key.spec_bytes(), raw_model(*value)),
    {
        if let Some(x) = self.take_bool(key, value) {
            self.set_align_consecutive_set(key, x);
        }
    }

    #[verifier::spinoff_prover]
    #[verifier::rlimit(100)]
    fn apply_align_arg_groups(&mut self, key: &str, value: &RawConfigValue)
        ensures
            final(self).model() == key_align_arg_groups(old(self).model(), key.spec_bytes(), raw_model(*value)),
    {
        if let Some(x) = self.take_bool(key, value) {
            self.set_align_arg_groups(key, x);
        }
    }

    #[verifier::spinoff_prover]
    #[verifier::rlimit(100)]
    fn apply_per_command_config(&mut self, key: &str, value: &RawConfigValue)
        ensures
            final(self).model() == key_per_command_config(old(self).model(), key.spec_bytes(), raw_model(*value)),
    {
        self.parse_per_command_config(key, value);
    }

    #[verifier::spinoff_prover]
    #[verifier::rlimit(100)]
    fn apply_sort_arguments(&mut self, key: &str, value: &RawConfigValue)
        ensures
            final(self).model() == key_sort_arguments(old(self).model(), key.spec_bytes(), raw_model(*value)),
    {
        if let Some(x) = self.take_bool_or_list(key, value, "boolean or array of command/section name strings") {
            self.set_sort_arguments(key, x);
        }
    }

    #[verifier::spinoff_prover]
    #[verifier::rlimit(100)]
    fn apply_sort_keyword_sections(&mut self, key: &str, value: &RawConfigValue)
        ensures
            final(self).model() == key_sort_keyword_sections(old(self).model(), key.spec_bytes(), raw_model(*value)),
    {
        if let Some(x) = self.take_bool(key, value) {
            self.set_sort_keyword_sections(key, x);
        }
    }

    #[verifier::spinoff_prover]
    #[verifier::rlimit(100)]
    fn apply_disable_formatting(&mut self, key: &str, value: &RawConfigValue)
        ensures
            final(self).model() == key_disable_formatting(old(self).model(), key.spec_bytes(), raw_model(*value)),
    {
        if let Some(x) = self.take_bool(key, value) {
            self.set_disable_formatting(key, x);
        }
    }

    #[verifier::spinoff_prover]
    #[verifier::rlimit(100)]
    fn apply_ignore_patterns(&mut self, key: &str, value: &RawConfigValue)
        ensures
            final(self).model() == key_ignore_patterns(old(self).model(), key.spec_bytes(), raw_model(*value)),
    {
        if let Some(x) = self.take_strings(key, value, false, "array of glob pattern strings") {
            self.set_ignore_patterns(key, x);
        }
    }

    #[verifier::spinoff_prover]
    #[verifier::rlimit(100)]
    fn apply_ignore_commands(&mut self, key: &str, value: &RawConfigValue)
        ensures
            final(self).model() == key_ignore_commands(old(self).model(), key.spec_bytes(), raw_model(*value)),
    {
        if let Some(x) = self.take_strings(key, value, false, "array of command name strings") {
            self.set_ignore_commands(key, x);
        }
    }

    #[verifier::spinoff_prover]
    #[verifier::rlimit(100)]
    fn apply_indent_block_body(&mut self, key: &str, value: &RawConfigValue)
        ensures
            final(self).model() == key_indent_block_body(old(self).model(), key.spec_bytes(), raw_model(*value)),
    {
        if let Some(x) = self.take_bool(key, value) {
            self.set_indent_block_body(key, x);
        }
    }

    #[verifier::spinoff_prover]
    #[verifier::rlimit(100)]
    fn apply_end_command_args(&mut self, key: &str, value: &RawConfigValue)
        ensures
            final(self).model() == key_end_command_args(old(self).model(), key.spec_bytes(), raw_model(*value)),
    {
        if let Some(x) = self.take_eca(key, value, "endCommandArgs") {
            self.set_end_command_args(key, x);
        }
    }

    #[verifier::spinoff_prover]
    #[verifier::rlimit(100)]
    fn apply_extends(&mut self, key: &str, value: &RawConfigValue)
        ensures
            final(self).model() == key_extends(old(self).model(), key.spec_bytes(), raw_model(*value)),
    {
        if let Some(x) = self.take_string(key, value) {
            self.set_extends(key, x);
        }
    }

    #[verifier::spinoff_prover]
    #[verifier::rlimit(100)]
    fn apply_indent_mode(&mut self, key: &str, value: &RawConfigValue)
        ensures
            final(self).model() == key_indent_mode(old(self).model(), key.spec_bytes(), raw_model(*value)),
    {
        self.parse_indent_mode(key, value);
    }
}

} // verus!
