//! Resolving a configuration file's `extends` chain: when to stop (depth,
//! cycles), what a stop reports, how a file's result merges with its base's,
//! and how relative ignore patterns are made relative to the declaring file.
use vstd::prelude::*;
use vstd::string::StringSliceAdditionalSpecFns;

use crate::alignments::join_sep;
use crate::config::Configuration;
use crate::inline::{sort_overrides, sorted_by_key};
use crate::load::{
    join_text, json_model, jsons_model, parse_toml_table, toml_table_text, lemma_jsons_model, lemma_string_valid, sbytes, strings_model, toml_entries_model, ConfigDiagnostic,
    ConfigDiagnosticSeverity, ConfigLoadResult, JsonModel, JsonValue,
};
use crate::loader::{default_configuration, default_model, diags_model, file_result, load_file_toml, pairs_text, result_model, DiagModel, LoadModel};
use crate::text::{eq_bytes, lemma_ascii_valid_utf8, lemma_str_valid, lemma_valid_concat, string_of};

verus! {

/// How deep an `extends` chain may go.
pub const MAX_EXTENDS_DEPTH: usize = 32;

/// What to do with a configuration file met while following `extends`.
pub enum ExtendsStep {
    /// Read it.
    Read,
    /// The chain is too deep.
    DepthExceeded,
    /// The file is already on the chain, from the given index on.
    Cycle(usize),
}

/// Where `c` first stands on the chain, if it does.
pub open spec fn first_index(stack: Seq<Seq<u8>>, c: Seq<u8>, i: int) -> Option<int>
    decreases stack.len() - i,
{
    if i < 0 || i >= stack.len() {
        None
    } else if stack[i] == c {
        Some(i)
    } else {
        first_index(stack, c, i + 1)
    }
}

/// The depth limit first, then a cycle, else read.
pub fn extends_step(stack: &Vec<String>, canonical: &str, depth: usize) -> (r: ExtendsStep)
    ensures
        depth >= MAX_EXTENDS_DEPTH ==> r is DepthExceeded,
        depth < MAX_EXTENDS_DEPTH ==> match first_index(strings_model(stack@), canonical.spec_bytes(), 0) {
            Some(k) => r == ExtendsStep::Cycle(k as usize),
            None => r is Read,
        },
{
    if depth >= MAX_EXTENDS_DEPTH {
        return ExtendsStep::DepthExceeded;
    }
    let ghost sm = strings_model(stack@);
    proof {
        reveal(strings_model);
    }
    let mut i: usize = 0;
    while i < stack.len()
        invariant
            depth < MAX_EXTENDS_DEPTH,
            i <= stack@.len(),
            sm == strings_model(stack@),
            sm.len() == stack@.len(),
            forall|j: int| 0 <= j < stack@.len() ==> #[trigger] sm[j] == sbytes(stack@[j]),
            first_index(sm, canonical.spec_bytes(), i as int) == first_index(sm, canonical.spec_bytes(), 0),
        decreases stack@.len() - i,
    {
        if crate::text::eq_bytes(stack[i].as_str().as_bytes(), canonical.as_bytes()) {
            proof {
                assert(sm[i as int] == canonical.spec_bytes());
            }
            return ExtendsStep::Cycle(i);
        }
        proof {
            assert(sm[i as int] != canonical.spec_bytes());
        }
        i = i + 1;
    }
    ExtendsStep::Read
}

/// The message of a stop: the depth limit, or the cycle from its first file
/// to the file met again, joined with ` -> `.
pub open spec fn stop_message(stack: Seq<Seq<u8>>, canonical: Seq<u8>, cycle: Option<int>) -> Seq<u8> {
    match cycle {
        None => "Exceeded maximum extends depth (32) while resolving configuration".spec_bytes(),
        Some(k) => "Circular extends reference detected: ".spec_bytes()
            + join_sep(stack.subrange(k, stack.len() as int).push(canonical), " -> ".spec_bytes()),
    }
}

/// What a stop gives: the default configuration with one diagnostic under
/// `key` and no overrides.
pub fn stop_result(stack: &Vec<String>, canonical: &str, cycle: Option<usize>, key: &str) -> (r: ConfigLoadResult)
    requires
        cycle matches Some(k) ==> k < stack@.len(),
    ensures
        result_model(r) == (LoadModel {
            config: default_model(),
            diagnostics: seq![DiagModel {
                key: key.spec_bytes(),
                message: stop_message(strings_model(stack@), canonical.spec_bytes(), match cycle { Some(k) => Some(k as int), None => None }),
            }],
            overrides: seq![],
        }),
{
    let message = match cycle {
        None => String::from_str("Exceeded maximum extends depth (32) while resolving configuration"),
        Some(k) => {
            let ghost sm = strings_model(stack@);
            let ghost parts = sm.subrange(k as int, sm.len() as int).push(canonical.spec_bytes());
            proof {
                reveal(strings_model);
                lemma_str_valid(" -> ");
                lemma_str_valid("Circular extends reference detected: ");
                lemma_str_valid(canonical);
            }
            let mut acc: Vec<u8> = Vec::new();
            let mut i: usize = k;
            proof {
                lemma_ascii_valid_utf8(acc@);
                assert(acc@ =~= join_sep(parts.take(0), " -> ".spec_bytes()));
            }
            while i < stack.len()
                invariant
                    k <= i <= stack@.len(),
                    sm == strings_model(stack@),
                    sm.len() == stack@.len(),
                    parts == sm.subrange(k as int, sm.len() as int).push(canonical.spec_bytes()),
                    forall|j: int| 0 <= j < stack@.len() ==> #[trigger] sm[j] == sbytes(stack@[j]),
                    acc@ == join_sep(parts.take(i - k), " -> ".spec_bytes()),
                    vstd::utf8::valid_utf8(acc@),
                    vstd::utf8::valid_utf8(" -> ".spec_bytes()),
                decreases stack@.len() - i,
            {
                proof {
                    lemma_string_valid(stack@[i as int]);
                    assert(parts.take(i - k + 1).drop_last() =~= parts.take(i - k));
                    assert(parts.take(i - k + 1).last() == sm[i as int]);
                }
                if i > k {
                    let a = join_text(acc.as_slice(), " -> ".as_bytes());
                    acc = join_text(a.as_slice(), stack[i].as_str().as_bytes());
                } else {
                    acc = join_text(acc.as_slice(), stack[i].as_str().as_bytes());
                    proof {
                        assert(parts.take(1) =~= seq![sm[i as int]]);
                    }
                }
                i = i + 1;
            }
            proof {
                assert(parts.take(stack@.len() - k + 1).drop_last() =~= parts.take(stack@.len() - k));
                assert(parts.take(stack@.len() - k + 1) =~= parts);
                if stack@.len() > k {
                    assert(parts.len() > 1);
                } else {
                    assert(parts =~= seq![canonical.spec_bytes()]);
                }
            }
            let full = if stack.len() > k {
                let a = join_text(acc.as_slice(), " -> ".as_bytes());
                join_text(a.as_slice(), canonical.as_bytes())
            } else {
                join_text(acc.as_slice(), canonical.as_bytes())
            };
            proof {
                assert(full@ =~= join_sep(parts, " -> ".spec_bytes()));
            }
            let m = join_text("Circular extends reference detected: ".as_bytes(), full.as_slice());
            string_of(m.as_slice())
        },
    };
    let k = String::from_str(key);
    let mut diagnostics: Vec<ConfigDiagnostic> = Vec::new();
    diagnostics.push(ConfigDiagnostic { key: k, message, severity: ConfigDiagnosticSeverity::Warning });
    let r = ConfigLoadResult { config: default_configuration(), diagnostics, overrides: Vec::new() };
    proof {
        reveal(diags_model);
        reveal(pairs_text);
        assert(pairs_text(r.overrides@) =~= Seq::<(Seq<u8>, Seq<u8>)>::empty());
        assert(diags_model(r.diagnostics@) =~= seq![DiagModel { key: key.spec_bytes(), message: sbytes(message) }]);
    }
    r
}

/// A file's result on top of its base's: the file's configuration; the
/// base's diagnostics, then the file's; all overrides, stably sorted by key.
pub open spec fn merged(base: LoadModel, child: LoadModel) -> LoadModel {
    LoadModel {
        config: child.config,
        diagnostics: base.diagnostics + child.diagnostics,
        overrides: sorted_by_key(base.overrides + child.overrides),
    }
}

/// See `merged`.
pub fn merge_results(base: ConfigLoadResult, child: ConfigLoadResult) -> (r: ConfigLoadResult)
    ensures
        result_model(r) == merged(result_model(base), result_model(child)),
{
    let ConfigLoadResult { config: _, diagnostics: bd, overrides: bo } = base;
    let ConfigLoadResult { config, diagnostics: cd, overrides: co } = child;
    let mut diagnostics = bd;
    let mut extra = cd;
    let ghost d0 = diagnostics@;
    let ghost d1 = extra@;
    diagnostics.append(&mut extra);
    let mut overrides = bo;
    let mut more = co;
    let ghost o0 = overrides@;
    let ghost o1 = more@;
    overrides.append(&mut more);
    proof {
        reveal(diags_model);
        reveal(pairs_text);
        assert(diags_model(diagnostics@) =~= diags_model(d0) + diags_model(d1));
        assert(pairs_text(overrides@) =~= pairs_text(o0) + pairs_text(o1));
    }
    let sorted = sort_overrides(overrides);
    ConfigLoadResult { config, diagnostics, overrides: sorted }
}

/// A configuration file's result: its document (with relative ignore
/// patterns rebased on `config_dir`) applied on the base's configuration, then
/// merged with the base's result as `merged` says.
pub fn merge_with_base(contents: &str, config_dir: &str, base: ConfigLoadResult, key: &str) -> (r: ConfigLoadResult)
    ensures
        result_model(r) == merged(
            result_model(base),
            file_result(result_model(base).config, contents@, key.spec_bytes(), config_dir.spec_bytes()),
        ),
{
    let config = base.config.copy();
    let child = load_file_toml(contents, config_dir, config, key);
    merge_results(base, child)
}

/// An ignore pattern made relative to the declaring file's directory: an
/// absolute pattern (starting with `/`) stays as it is; another is joined to
/// the directory as `Path::join` does (a `/` between them unless the directory
/// is empty or ends with one); then each `\` becomes `/`.
pub open spec fn rebased(pattern: Seq<u8>, dir: Seq<u8>) -> Seq<u8> {
    if pattern.len() > 0 && pattern[0] == 47u8 {
        pattern
    } else {
        let joined = if dir.len() == 0 {
            pattern
        } else if dir.last() == 47u8 {
            dir + pattern
        } else {
            dir + seq![47u8] + pattern
        };
        Seq::new(joined.len(), |i: int| if joined[i] == 92u8 { 47u8 } else { joined[i] })
    }
}

/// See `rebased`.
pub fn rebase_pattern(pattern: &str, config_dir: &str) -> (r: String)
    ensures
        sbytes(r) == rebased(pattern.spec_bytes(), config_dir.spec_bytes()),
{
    let p = pattern.as_bytes();
    let d = config_dir.as_bytes();
    if p.len() > 0 && p[0] == 47u8 {
        return String::from_str(pattern);
    }
    proof {
        lemma_str_valid(pattern);
        lemma_str_valid(config_dir);
        lemma_ascii_valid_utf8(seq![47u8]);
    }
    let joined = if d.len() == 0 {
        crate::layout::slice_vec(p, 0, p.len())
    } else if d[d.len() - 1] == 47u8 {
        join_text(d, p)
    } else {
        let sl: Vec<u8> = vec![47u8];
        proof {
            assert(sl@ =~= seq![47u8]);
        }
        let a = join_text(d, sl.as_slice());
        join_text(a.as_slice(), p)
    };
    proof {
        assert(p@.subrange(0, p@.len() as int) =~= p@);
    }
    let ghost js = joined@;
    let mut out: Vec<u8> = Vec::new();
    let ghost mut g = js;
    let mut i: usize = 0;
    while i < joined.len()
        invariant
            i <= js.len(),
            js == joined@,
            vstd::utf8::valid_utf8(js),
            out@ == Seq::new(js.len(), |j: int| if js[j] == 92u8 { 47u8 } else { js[j] }).take(i as int),
            g.len() == js.len(),
            forall|j: int| 0 <= j < i ==> #[trigger] g[j] == (if js[j] == 92u8 { 47u8 } else { js[j] }),
            forall|j: int| i <= j < js.len() ==> #[trigger] g[j] == js[j],
            vstd::utf8::valid_utf8(g),
        decreases js.len() - i,
    {
        if joined[i] == 92u8 {
            proof {
                crate::format_text::lemma_replace_ascii(g, i as int, 47u8);
                g = g.update(i as int, 47u8);
            }
            out.push(47u8);
        } else {
            out.push(joined[i]);
        }
        proof {
            assert(out@ =~= Seq::new(js.len(), |j: int| if js[j] == 92u8 { 47u8 } else { js[j] }).take(i + 1));
        }
        i = i + 1;
    }
    proof {
        assert(g =~= Seq::new(js.len(), |j: int| if js[j] == 92u8 { 47u8 } else { js[j] }));
        assert(out@ =~= g);
    }
    string_of(out.as_slice())
}


/// The key under which a table holds its ignore patterns: `ignorePatterns`
/// where the table has that key, else `ignore_patterns`.
pub open spec fn ignore_key(t: Seq<(Seq<u8>, Result<JsonModel, Seq<u8>>)>) -> Seq<u8> {
    if exists|k: int| 0 <= k < t.len() && (#[trigger] t[k]).0 == "ignorePatterns".spec_bytes() {
        "ignorePatterns".spec_bytes()
    } else {
        "ignore_patterns".spec_bytes()
    }
}

/// A string pattern rebased on `dir`; any other value as it is.
pub open spec fn rebased_item(j: JsonModel, dir: Seq<u8>) -> JsonModel {
    match j {
        JsonModel::Str(p) => JsonModel::Str(rebased(p, dir)),
        _ => j,
    }
}

/// The entry under `key`, when its value is an array, with its string
/// patterns rebased on `dir`; any other entry as it is.
pub open spec fn rebased_entry(e: (Seq<u8>, Result<JsonModel, Seq<u8>>), key: Seq<u8>, dir: Seq<u8>) -> (Seq<u8>, Result<JsonModel, Seq<u8>>) {
    if e.0 == key {
        match e.1 {
            Ok(JsonModel::Array(items)) => (e.0, Ok(JsonModel::Array(items.map_values(|x: JsonModel| rebased_item(x, dir))))),
            _ => e,
        }
    } else {
        e
    }
}

/// A configuration file's table with its relative ignore patterns rebased on
/// the directory of the file.
pub open spec fn rebased_entries(t: Seq<(Seq<u8>, Result<JsonModel, Seq<u8>>)>, dir: Seq<u8>) -> Seq<(Seq<u8>, Result<JsonModel, Seq<u8>>)> {
    t.map_values(|e: (Seq<u8>, Result<JsonModel, Seq<u8>>)| rebased_entry(e, ignore_key(t), dir))
}

fn rebase_items(items: &mut Vec<JsonValue>, dir: &str)
    ensures
        jsons_model(*final(items), 0) == jsons_model(*old(items), 0).map_values(|x: JsonModel| rebased_item(x, dir.spec_bytes())),
{
    let ghost start = *items;
    let mut i: usize = 0;
    while i < items.len()
        invariant
            i <= items@.len() == start@.len(),
            forall|k: int| 0 <= k < i ==> json_model(#[trigger] items@[k]) == rebased_item(json_model(start@[k]), dir.spec_bytes()),
            forall|k: int| i <= k < items@.len() ==> #[trigger] items@[k] == start@[k],
        decreases items@.len() - i,
    {
        let fresh = match &items[i] {
            JsonValue::Str(p) => Some(rebase_pattern(p.as_str(), dir)),
            _ => None,
        };
        match fresh {
            Some(q) => {
                items.set(i, JsonValue::Str(q));
            },
            None => {},
        }
        i = i + 1;
    }
    proof {
        lemma_jsons_model(*items, 0);
        lemma_jsons_model(start, 0);
        assert(jsons_model(*items, 0) =~= jsons_model(start, 0).map_values(|x: JsonModel| rebased_item(x, dir.spec_bytes())));
    }
}

/// See `rebased_entries`.
pub(crate) fn rebase_ignore_entries(t: &mut Vec<(String, Result<JsonValue, String>)>, dir: &str)
    ensures
        toml_entries_model(*final(t)) == rebased_entries(toml_entries_model(*old(t)), dir.spec_bytes()),
{
    let ghost m0 = toml_entries_model(*t);
    let mut camel = false;
    let mut j: usize = 0;
    while j < t.len()
        invariant
            j <= t@.len(),
            m0 == toml_entries_model(*t),
            camel <==> exists|k: int| 0 <= k < j && (#[trigger] m0[k]).0 == "ignorePatterns".spec_bytes(),
        decreases t@.len() - j,
    {
        if eq_bytes(t[j].0.as_str().as_bytes(), "ignorePatterns".as_bytes()) {
            proof {
                assert(m0[j as int].0 == "ignorePatterns".spec_bytes());
            }
            camel = true;
        }
        j = j + 1;
    }
    let key: &str = if camel { "ignorePatterns" } else { "ignore_patterns" };
    proof {
        assert(key.spec_bytes() == ignore_key(m0));
    }
    let mut i: usize = 0;
    while i < t.len()
        invariant
            i <= t@.len() == m0.len(),
            key.spec_bytes() == ignore_key(m0),
            forall|k: int| 0 <= k < i ==> toml_entries_model(*t)[k] == #[trigger] rebased_entry(m0[k], ignore_key(m0), dir.spec_bytes()),
            forall|k: int| i <= k < t@.len() ==> toml_entries_model(*t)[k] == #[trigger] m0[k],
        decreases t@.len() - i,
    {
        let hit = eq_bytes(t[i].0.as_str().as_bytes(), key.as_bytes());
        let is_array = match &t[i].1 {
            Ok(JsonValue::Array(_)) => true,
            _ => false,
        };
        if hit && is_array {
            let ghost before = *t;
            let e = t.remove(i);
            let (k, v) = e;
            let nv = match v {
                Ok(JsonValue::Array(items)) => {
                    let mut items = items;
                    rebase_items(&mut items, dir);
                    Ok(JsonValue::Array(items))
                },
                other => other,
            };
            t.insert(i, (k, nv));
            proof {
                assert(t@ =~= before@.update(i as int, t@[i as int]));
            }
        }
        i = i + 1;
    }
    proof {
        assert(toml_entries_model(*t) =~= rebased_entries(m0, dir.spec_bytes()));
    }
}


/// The string under the first `extends` key of the entries from `i` on, if
/// that value is a string.
pub open spec fn extends_in(t: Seq<(Seq<u8>, Result<JsonModel, Seq<u8>>)>, i: int) -> Option<Seq<u8>>
    decreases t.len() - i,
{
    if i < 0 || i >= t.len() {
        None
    } else if t[i].0 == "extends".spec_bytes() {
        match t[i].1 {
            Ok(JsonModel::Str(p)) => Some(p),
            _ => None,
        }
    } else {
        extends_in(t, i + 1)
    }
}

/// The file that a configuration document extends, as written in it.
pub open spec fn extends_target(text: Seq<char>) -> Option<Seq<u8>> {
    match toml_table_text(text) {
        Ok(t) => extends_in(t, 0),
        Err(_) => None,
    }
}

/// See `extends_target`.
pub fn extends_of(contents: &str) -> (r: Option<String>)
    ensures
        match r {
            Some(p) => extends_target(contents@) == Some(sbytes(p)),
            None => extends_target(contents@) is None,
        },
{
    let mut t = match parse_toml_table(contents) {
        Ok(t) => t,
        Err(_) => {
            return None;
        },
    };
    let ghost m = toml_entries_model(t);
    let mut i: usize = 0;
    while i < t.len()
        invariant
            i <= t@.len() == m.len(),
            m == toml_entries_model(t),
            toml_table_text(contents@) == Ok::<_, Seq<u8>>(m),
            extends_in(m, 0) == extends_in(m, i as int),
        decreases t@.len() - i,
    {
        if eq_bytes(t[i].0.as_str().as_bytes(), "extends".as_bytes()) {
            let ghost ei = t@[i as int];
            proof {
                assert(m[i as int].0 == "extends".spec_bytes());
                assert(m[i as int].1 == match ei.1 {
                    Ok(j) => Ok::<JsonModel, Seq<u8>>(json_model(j)),
                    Err(x) => Err::<JsonModel, Seq<u8>>(sbytes(x)),
                });
            }
            let e = t.remove(i);
            let (_, v) = e;
            proof {
                assert(v == ei.1);
                assert(extends_in(m, i as int) == match m[i as int].1 {
                    Ok(JsonModel::Str(p)) => Some(p),
                    _ => None,
                });
            }
            return match v {
                Ok(JsonValue::Str(p)) => Some(p),
                _ => None,
            };
        }
        i = i + 1;
    }
    None
}

} // verus!
