//! `tree-sitter dump`: an S-expression outline of a module's
//! definitions and references.
//!
//! Reading source files is the binary's business; picking the queries
//! for a filename extension, collapsing duplicate capture texts, and
//! rendering the outline happen here.  The parse itself is
//! tree-sitter's: each grammar's capture pipeline stands behind one
//! trusted function whose result carries a name, so the outline's
//! contract is exact in terms of those names.

use vstd::prelude::*;

use tree_sitter::{Parser, Query, QueryCursor, StreamingIterator};

use crate::json::{hex_digit, push_quoted, quoted};
use crate::text::{chars_to_string, push_str_chars, str_eq};

verus! {

/// The tags query matching definitions in Python sources.
pub open spec fn python_defs() -> Seq<char> {
    "\n(class_definition\n    name: (identifier) @name)\n\n(function_definition\n    name: (identifier) @name)\n"@
}

/// The tags query matching references in Python sources.
pub open spec fn python_refs() -> Seq<char> {
    "\n(identifier) @name\n"@
}

/// The tags query matching definitions in Rust sources.
pub open spec fn rust_defs() -> Seq<char> {
    "\n(struct_item\n    name: (type_identifier) @name)\n\n(enum_item\n    name: (type_identifier) @name)\n\n(union_item\n    name: (type_identifier) @name)\n\n(type_item\n    name: (type_identifier) @name)\n\n(declaration_list\n    (function_item\n        name: (identifier) @name))\n\n(function_item\n    name: (identifier) @name)\n\n(trait_item\n    name: (type_identifier) @name)\n\n(mod_item\n    name: (identifier) @name)\n\n(macro_definition\n    name: (identifier) @name)\n"@
}

/// The tags query matching references in Rust sources.
pub open spec fn rust_refs() -> Seq<char> {
    "\n(call_expression\n    function: (identifier) @name)\n\n(call_expression\n    function: (field_expression\n        field: (field_identifier) @name))\n\n(macro_invocation\n    macro: (identifier) @name)\n"@
}

/// The tags query matching definitions in TypeScript sources.
pub open spec fn typescript_defs() -> Seq<char> {
    "\n(function_signature\n    name: (identifier) @name)\n\n(method_signature\n    name: (property_identifier) @name)\n\n(abstract_method_signature\n    name: (property_identifier) @name)\n\n(abstract_class_declaration\n    name: (type_identifier) @name)\n\n(module\n    name: (identifier) @name)\n\n(interface_declaration\n    name: (type_identifier) @name)\n"@
}

/// The tags query matching references in TypeScript sources.
pub open spec fn typescript_refs() -> Seq<char> {
    "\n(type_annotation\n    (type_identifier) @name)\n\n(new_expression\n    constructor: (identifier) @name)\n"@
}

/// What the capture pipeline yields on the Python grammar: the texts of
/// every capture of every match of the query over the parsed source, in
/// match order, or the pipeline's complaint.  The grammar is fixed, so
/// the outcome is a function of the query and the source alone.
pub uninterp spec fn python_captures(query: Seq<char>, source: Seq<char>) -> Result<
    Seq<Seq<char>>,
    Seq<char>,
>;

/// What the capture pipeline yields on the Rust grammar.
pub uninterp spec fn rust_captures(query: Seq<char>, source: Seq<char>) -> Result<
    Seq<Seq<char>>,
    Seq<char>,
>;

/// What the capture pipeline yields on the TypeScript grammar.
pub uninterp spec fn typescript_captures(query: Seq<char>, source: Seq<char>) -> Result<
    Seq<Seq<char>>,
    Seq<char>,
>;

/// What the capture pipeline yields on the TSX grammar.
pub uninterp spec fn tsx_captures(query: Seq<char>, source: Seq<char>) -> Result<
    Seq<Seq<char>>,
    Seq<char>,
>;

/// Relies on tree_sitter (`Parser`, `Query`, `QueryCursor`) with
/// tree_sitter_python's `LANGUAGE`: parses `source`, runs `query` over
/// the tree, and hands back the text of every capture of every match,
/// in match order, duplicates included.
#[verifier::external_body]
fn python_capture_texts(query: &str, source: &str) -> (r: Result<Vec<String>, String>)
    ensures
        (match r {
            Ok(v) => python_captures(query@, source@) == Ok::<Seq<Seq<char>>, Seq<char>>(
                v@.map_values(|s: String| s@),
            ),
            Err(e) => python_captures(query@, source@) == Err::<Seq<Seq<char>>, Seq<char>>(e@),
        }),
{
    let language = tree_sitter::Language::new(tree_sitter_python::LANGUAGE);
    let mut parser = Parser::new();
    parser.set_language(&language).map_err(|e| e.to_string())?;
    let tree = parser.parse(source, None).ok_or("could not parse")?;
    let query = Query::new(&language, query).map_err(|e| e.to_string())?;
    let mut cursor = QueryCursor::new();
    let mut matches = cursor.matches(&query, tree.root_node(), source.as_bytes());
    let mut out = Vec::new();
    while let Some(m) = matches.next() {
        for c in m.captures() {
            out.push(c.node.utf8_text(source.as_bytes()).unwrap_or_default().to_string());
        }
    }
    Ok(out)
}

/// Relies on tree_sitter with tree_sitter_rust's `LANGUAGE`: the same
/// capture pipeline over the Rust grammar.
#[verifier::external_body]
fn rust_capture_texts(query: &str, source: &str) -> (r: Result<Vec<String>, String>)
    ensures
        (match r {
            Ok(v) => rust_captures(query@, source@) == Ok::<Seq<Seq<char>>, Seq<char>>(
                v@.map_values(|s: String| s@),
            ),
            Err(e) => rust_captures(query@, source@) == Err::<Seq<Seq<char>>, Seq<char>>(e@),
        }),
{
    let language = tree_sitter::Language::new(tree_sitter_rust::LANGUAGE);
    let mut parser = Parser::new();
    parser.set_language(&language).map_err(|e| e.to_string())?;
    let tree = parser.parse(source, None).ok_or("could not parse")?;
    let query = Query::new(&language, query).map_err(|e| e.to_string())?;
    let mut cursor = QueryCursor::new();
    let mut matches = cursor.matches(&query, tree.root_node(), source.as_bytes());
    let mut out = Vec::new();
    while let Some(m) = matches.next() {
        for c in m.captures() {
            out.push(c.node.utf8_text(source.as_bytes()).unwrap_or_default().to_string());
        }
    }
    Ok(out)
}

/// Relies on tree_sitter with tree_sitter_typescript's
/// `LANGUAGE_TYPESCRIPT`: the same capture pipeline over the TypeScript
/// grammar.
#[verifier::external_body]
fn typescript_capture_texts(query: &str, source: &str) -> (r: Result<Vec<String>, String>)
    ensures
        (match r {
            Ok(v) => typescript_captures(query@, source@) == Ok::<Seq<Seq<char>>, Seq<char>>(
                v@.map_values(|s: String| s@),
            ),
            Err(e) => typescript_captures(query@, source@) == Err::<Seq<Seq<char>>, Seq<char>>(
                e@,
            ),
        }),
{
    let language = tree_sitter::Language::new(tree_sitter_typescript::LANGUAGE_TYPESCRIPT);
    let mut parser = Parser::new();
    parser.set_language(&language).map_err(|e| e.to_string())?;
    let tree = parser.parse(source, None).ok_or("could not parse")?;
    let query = Query::new(&language, query).map_err(|e| e.to_string())?;
    let mut cursor = QueryCursor::new();
    let mut matches = cursor.matches(&query, tree.root_node(), source.as_bytes());
    let mut out = Vec::new();
    while let Some(m) = matches.next() {
        for c in m.captures() {
            out.push(c.node.utf8_text(source.as_bytes()).unwrap_or_default().to_string());
        }
    }
    Ok(out)
}

/// Relies on tree_sitter with tree_sitter_typescript's `LANGUAGE_TSX`:
/// the same capture pipeline over the TSX grammar.
#[verifier::external_body]
fn tsx_capture_texts(query: &str, source: &str) -> (r: Result<Vec<String>, String>)
    ensures
        (match r {
            Ok(v) => tsx_captures(query@, source@) == Ok::<Seq<Seq<char>>, Seq<char>>(
                v@.map_values(|s: String| s@),
            ),
            Err(e) => tsx_captures(query@, source@) == Err::<Seq<Seq<char>>, Seq<char>>(e@),
        }),
{
    let language = tree_sitter::Language::new(tree_sitter_typescript::LANGUAGE_TSX);
    let mut parser = Parser::new();
    parser.set_language(&language).map_err(|e| e.to_string())?;
    let tree = parser.parse(source, None).ok_or("could not parse")?;
    let query = Query::new(&language, query).map_err(|e| e.to_string())?;
    let mut cursor = QueryCursor::new();
    let mut matches = cursor.matches(&query, tree.root_node(), source.as_bytes());
    let mut out = Vec::new();
    while let Some(m) = matches.next() {
        for c in m.captures() {
            out.push(c.node.utf8_text(source.as_bytes()).unwrap_or_default().to_string());
        }
    }
    Ok(out)
}

/// The filename extensions some grammar here can handle.
pub open spec fn known_extension(ext: Seq<char>) -> bool {
    ext == "py"@ || ext == "rs"@ || ext == "ts"@ || ext == "js"@ || ext == "tsx"@ || ext == "jsx"@
}

/// Whether some grammar here would likely handle a file with the given
/// filename extension.
pub fn extension_supported(ext: Option<&str>) -> (r: bool)
    ensures
        r == (ext matches Some(e) && known_extension(e@)),
{
    match ext {
        None => false,
        Some(e) => str_eq(e, "py") || str_eq(e, "rs") || str_eq(e, "ts") || str_eq(e, "js")
            || str_eq(e, "tsx") || str_eq(e, "jsx"),
    }
}

/// The definitions query for a known extension, tried in the same
/// order the registry tries them.
pub open spec fn defs_for_extension(ext: Seq<char>) -> Seq<char> {
    if ext == "py"@ {
        python_defs()
    } else if ext == "rs"@ {
        rust_defs()
    } else {
        typescript_defs()
    }
}

/// The references query for a known extension.
pub open spec fn refs_for_extension(ext: Seq<char>) -> Seq<char> {
    if ext == "py"@ {
        python_refs()
    } else if ext == "rs"@ {
        rust_refs()
    } else {
        typescript_refs()
    }
}

/// What the capture pipeline yields for a known extension: the grammar
/// is picked in the same order the registry tries extensions.
pub open spec fn capture_run(ext: Seq<char>, query: Seq<char>, source: Seq<char>) -> Result<
    Seq<Seq<char>>,
    Seq<char>,
> {
    if ext == "py"@ {
        python_captures(query, source)
    } else if ext == "rs"@ {
        rust_captures(query, source)
    } else if ext == "ts"@ || ext == "js"@ {
        typescript_captures(query, source)
    } else {
        tsx_captures(query, source)
    }
}

/// Given a filename extension, pick the pair of tags queries that
/// matches definitions and references for its language.
pub fn queries_for_filename_extension(ext: Option<&str>) -> (r: Option<(&'static str, &'static str)>)
    ensures
        r is Some <==> (ext matches Some(e) && known_extension(e@)),
        ext matches Some(e) ==> (known_extension(e@) ==> (r matches Some(q) && q.0@
            == defs_for_extension(e@) && q.1@ == refs_for_extension(e@))),
{
    let e = match ext {
        None => {
            return None;
        },
        Some(e) => e,
    };
    if str_eq(e, "py") {
        Some(
            (
                "\n(class_definition\n    name: (identifier) @name)\n\n(function_definition\n    name: (identifier) @name)\n",
                "\n(identifier) @name\n",
            ),
        )
    } else if str_eq(e, "rs") {
        Some(
            (
                "\n(struct_item\n    name: (type_identifier) @name)\n\n(enum_item\n    name: (type_identifier) @name)\n\n(union_item\n    name: (type_identifier) @name)\n\n(type_item\n    name: (type_identifier) @name)\n\n(declaration_list\n    (function_item\n        name: (identifier) @name))\n\n(function_item\n    name: (identifier) @name)\n\n(trait_item\n    name: (type_identifier) @name)\n\n(mod_item\n    name: (identifier) @name)\n\n(macro_definition\n    name: (identifier) @name)\n",
                "\n(call_expression\n    function: (identifier) @name)\n\n(call_expression\n    function: (field_expression\n        field: (field_identifier) @name))\n\n(macro_invocation\n    macro: (identifier) @name)\n",
            ),
        )
    } else if str_eq(e, "ts") || str_eq(e, "js") || str_eq(e, "tsx") || str_eq(e, "jsx") {
        Some(
            (
                "\n(function_signature\n    name: (identifier) @name)\n\n(method_signature\n    name: (property_identifier) @name)\n\n(abstract_method_signature\n    name: (property_identifier) @name)\n\n(abstract_class_declaration\n    name: (type_identifier) @name)\n\n(module\n    name: (identifier) @name)\n\n(interface_declaration\n    name: (type_identifier) @name)\n",
                "\n(type_annotation\n    (type_identifier) @name)\n\n(new_expression\n    constructor: (identifier) @name)\n",
            ),
        )
    } else {
        None
    }
}

/// Whether `x` occurs among the first `k` elements.
pub open spec fn occurs_before(s: Seq<Seq<char>>, k: int, x: Seq<char>) -> bool {
    exists|j: int| 0 <= j < k && s[j] == x
}

/// The distinct elements of `s`, each at its first occurrence, in
/// order.
pub open spec fn first_occurrences(s: Seq<Seq<char>>, k: int) -> Seq<Seq<char>>
    decreases k,
{
    if k <= 0 {
        Seq::empty()
    } else if occurs_before(s, k - 1, s[k - 1]) {
        first_occurrences(s, k - 1)
    } else {
        first_occurrences(s, k - 1).push(s[k - 1])
    }
}

/// The whole of `s` with duplicates collapsed to first occurrences.
pub open spec fn deduped(s: Seq<Seq<char>>) -> Seq<Seq<char>> {
    first_occurrences(s, s.len() as int)
}

/// Collapse duplicate texts, keeping first occurrences in order.
#[verifier::loop_isolation(false)]
pub fn dedup_texts(v: &Vec<String>) -> (r: Vec<String>)
    ensures
        r@.map_values(|s: String| s@) == deduped(v@.map_values(|s: String| s@)),
{
    let ghost sv = v@.map_values(|s: String| s@);
    let mut out: Vec<String> = Vec::new();
    let n = v.len();
    let mut i: usize = 0;
    while i < n
        invariant
            0 <= i <= n,
            out@.map_values(|s: String| s@) == first_occurrences(sv, i as int),
        decreases n - i,
    {
        let ghost before = out@.map_values(|s: String| s@);
        let mut seen = false;
        let mut j: usize = 0;
        while j < i
            invariant
                0 <= j <= i,
                seen <==> exists|t: int| 0 <= t < j && sv[t] == sv[i as int],
            decreases i - j,
        {
            if str_eq(v[j].as_str(), v[i].as_str()) {
                seen = true;
                proof {
                    assert(sv[j as int] == v@[j as int]@);
                    assert(sv[i as int] == v@[i as int]@);
                    assert(sv[j as int] == sv[i as int]);
                }
            }
            j += 1;
        }
        proof {
            assert(seen == occurs_before(sv, i as int, sv[i as int]));
        }
        if !seen {
            out.push(v[i].clone());
            proof {
                assert(out@.map_values(|s: String| s@) =~= before.push(sv[i as int]));
            }
        }
        i += 1;
    }
    proof {
        assert(sv.len() == v@.len());
    }
    out
}

/// The items of a rendered text list, comma separated, each quoted
/// with the same escapes the wire uses.
pub open spec fn quoted_items(items: Seq<Seq<char>>) -> Seq<char>
    decreases items.len(),
{
    if items.len() == 0 {
        Seq::empty()
    } else if items.len() == 1 {
        quoted(items[0])
    } else {
        quoted(items[0]) + ", "@ + quoted_items(items.drop_first())
    }
}

/// `["a", "b"]`: the rendering of a text list.
pub open spec fn quoted_list(items: Seq<Seq<char>>) -> Seq<char> {
    "["@ + quoted_items(items) + "]"@
}

proof fn lemma_quoted_items_snoc(items: Seq<Seq<char>>, x: Seq<char>)
    ensures
        quoted_items(items.push(x)) == if items.len() == 0 {
            quoted(x)
        } else {
            quoted_items(items) + ", "@ + quoted_items(seq![x])
        },
    decreases items.len(),
{
    if items.len() == 0 {
        assert(items.push(x) =~= seq![x]);
    } else {
        assert(items.push(x).drop_first() =~= items.drop_first().push(x));
        lemma_quoted_items_snoc(items.drop_first(), x);
        assert(quoted_items(items.push(x)) =~= quoted_items(items) + ", "@ + quoted_items(
            seq![x],
        ));
    }
}

/// Append `["a", "b"]` for the given texts.
#[verifier::loop_isolation(false)]
fn push_quoted_list(out: &mut Vec<char>, items: &Vec<String>)
    ensures
        final(out)@ == old(out)@ + quoted_list(items@.map_values(|s: String| s@)),
{
    let ghost iv = items@.map_values(|s: String| s@);
    push_str_chars(out, "[");
    let ghost base = out@;
    proof {
        assert(iv.take(0) =~= Seq::<Seq<char>>::empty());
        assert(base + quoted_items(iv.take(0)) =~= base);
    }
    let n = items.len();
    let mut i: usize = 0;
    while i < n
        invariant
            0 <= i <= n,
            out@ == base + quoted_items(iv.take(i as int)),
        decreases n - i,
    {
        if i > 0 {
            push_str_chars(out, ", ");
        }
        push_quoted(out, items[i].as_str());
        proof {
            assert(iv[i as int] == items@[i as int]@);
            assert(iv.take(i + 1) =~= iv.take(i as int).push(iv[i as int]));
            lemma_quoted_items_snoc(iv.take(i as int), iv[i as int]);
            assert(quoted_items(seq![iv[i as int]]) == quoted(iv[i as int]));
            assert(out@ =~= base + quoted_items(iv.take(i + 1)));
        }
        i += 1;
    }
    proof {
        assert(iv.take(n as int) =~= iv);
    }
    push_str_chars(out, "]");
    proof {
        assert(final(out)@ =~= old(out)@ + quoted_list(iv));
    }
}

/// The outline of one module:
/// `(module name:"<stem>" defs:[...] refs:[...])`.
pub open spec fn module_outline(stem: Seq<char>, defs: Seq<Seq<char>>, refs: Seq<Seq<char>>) -> Seq<
    char,
> {
    "(module name:\""@ + stem + "\" defs:"@ + quoted_list(defs) + " refs:"@ + quoted_list(refs)
        + ")"@
}

/// Render the outline of one module.
pub fn format_module_outline(stem: &str, defs: &Vec<String>, refs: &Vec<String>) -> (r: String)
    ensures
        r@ == module_outline(
            stem@,
            defs@.map_values(|s: String| s@),
            refs@.map_values(|s: String| s@),
        ),
{
    let mut out: Vec<char> = Vec::new();
    push_str_chars(&mut out, "(module name:\"");
    push_str_chars(&mut out, stem);
    push_str_chars(&mut out, "\" defs:");
    push_quoted_list(&mut out, defs);
    push_str_chars(&mut out, " refs:");
    push_quoted_list(&mut out, refs);
    push_str_chars(&mut out, ")");
    proof {
        assert(out@ =~= module_outline(
            stem@,
            defs@.map_values(|s: String| s@),
            refs@.map_values(|s: String| s@),
        ));
    }
    chars_to_string(&out)
}

/// Collapse both raw capture lists and render the outline.
fn finish_outline(stem: &str, defs_raw: &Vec<String>, refs_raw: &Vec<String>) -> (r: String)
    ensures
        r@ == module_outline(
            stem@,
            deduped(defs_raw@.map_values(|s: String| s@)),
            deduped(refs_raw@.map_values(|s: String| s@)),
        ),
{
    let defs = dedup_texts(defs_raw);
    let refs = dedup_texts(refs_raw);
    format_module_outline(stem, &defs, &refs)
}

/// Produce the S-expression outline of one module's source text: its
/// definitions and references, duplicates collapsed to their first
/// occurrence, exactly as the grammar's capture pipeline hands them
/// back.  A filename extension no grammar handles yields the unit value
/// `()`; the pipeline's failures pass through unchanged.
pub fn outline_source(stem: &str, ext: Option<&str>, source: &str) -> (r: Result<String, String>)
    ensures
        !(ext matches Some(e) && known_extension(e@)) ==> (r matches Ok(s) && s@ == "()"@),
        ext matches Some(e) ==> (known_extension(e@) ==> (match capture_run(
            e@,
            defs_for_extension(e@),
            source@,
        ) {
            Err(m) => r matches Err(err) && err@ == m,
            Ok(defs_raw) => match capture_run(e@, refs_for_extension(e@), source@) {
                Err(m) => r matches Err(err) && err@ == m,
                Ok(refs_raw) => r matches Ok(s) && s@ == module_outline(
                    stem@,
                    deduped(defs_raw),
                    deduped(refs_raw),
                ),
            },
        })),
{
    let e = match ext {
        None => {
            return Ok(String::from_str("()"));
        },
        Some(e) => e,
    };
    let queries = match queries_for_filename_extension(ext) {
        None => {
            return Ok(String::from_str("()"));
        },
        Some(q) => q,
    };
    if str_eq(e, "py") {
        let defs_raw = match python_capture_texts(queries.0, source) {
            Err(m) => {
                return Err(m);
            },
            Ok(v) => v,
        };
        let refs_raw = match python_capture_texts(queries.1, source) {
            Err(m) => {
                return Err(m);
            },
            Ok(v) => v,
        };
        Ok(finish_outline(stem, &defs_raw, &refs_raw))
    } else if str_eq(e, "rs") {
        let defs_raw = match rust_capture_texts(queries.0, source) {
            Err(m) => {
                return Err(m);
            },
            Ok(v) => v,
        };
        let refs_raw = match rust_capture_texts(queries.1, source) {
            Err(m) => {
                return Err(m);
            },
            Ok(v) => v,
        };
        Ok(finish_outline(stem, &defs_raw, &refs_raw))
    } else if str_eq(e, "ts") || str_eq(e, "js") {
        let defs_raw = match typescript_capture_texts(queries.0, source) {
            Err(m) => {
                return Err(m);
            },
            Ok(v) => v,
        };
        let refs_raw = match typescript_capture_texts(queries.1, source) {
            Err(m) => {
                return Err(m);
            },
            Ok(v) => v,
        };
        Ok(finish_outline(stem, &defs_raw, &refs_raw))
    } else {
        let defs_raw = match tsx_capture_texts(queries.0, source) {
            Err(m) => {
                return Err(m);
            },
            Ok(v) => v,
        };
        let refs_raw = match tsx_capture_texts(queries.1, source) {
            Err(m) => {
                return Err(m);
            },
            Ok(v) => v,
        };
        Ok(finish_outline(stem, &defs_raw, &refs_raw))
    }
}

/// How one character of an entry name is written in a directory
/// outline, as the default character escape writes it: the named
/// controls, backslash and both quotes take a two-character escape,
/// printable ASCII stands as itself, and everything else becomes a
/// braced hexadecimal escape.
pub open spec fn escape_default_char(c: char) -> Seq<char> {
    if c == '\t' {
        seq!['\\', 't']
    } else if c == '\r' {
        seq!['\\', 'r']
    } else if c == '\n' {
        seq!['\\', 'n']
    } else if c == '\\' {
        seq!['\\', '\\']
    } else if c == '\'' {
        seq!['\\', '\'']
    } else if c == '"' {
        seq!['\\', '"']
    } else if 0x20 <= c as u32 && c as u32 <= 0x7e {
        seq![c]
    } else {
        seq!['\\', 'u', '{'] + hex_seq(c as u32 as int) + seq!['}']
    }
}

/// The hexadecimal numeral of `n`, most significant digit first, no
/// leading zeros.
pub open spec fn hex_seq(n: int) -> Seq<char>
    decreases n,
{
    if n <= 15 {
        seq![hex_digit(if n < 0 { 0 } else { n })]
    } else {
        hex_seq(n / 16) + seq![hex_digit(n % 16)]
    }
}

/// A whole entry name under the default character escape.
pub open spec fn escaped_default(s: Seq<char>) -> Seq<char>
    decreases s.len(),
{
    if s.len() == 0 {
        Seq::empty()
    } else {
        escape_default_char(s[0]) + escaped_default(s.drop_first())
    }
}

proof fn lemma_escaped_default_snoc(s: Seq<char>, c: char)
    ensures
        escaped_default(s + seq![c]) == escaped_default(s) + escape_default_char(c),
    decreases s.len(),
{
    if s.len() == 0 {
        reveal_with_fuel(escaped_default, 3);
        assert(s + seq![c] =~= seq![c]);
        assert((seq![c]).drop_first() =~= Seq::<char>::empty());
        assert(escaped_default(s) =~= Seq::<char>::empty());
        assert(escape_default_char(c) + Seq::<char>::empty() =~= escape_default_char(c));
        assert(escaped_default(seq![c]) =~= escape_default_char(c));
    } else {
        assert((s + seq![c]).drop_first() =~= s.drop_first() + seq![c]);
        lemma_escaped_default_snoc(s.drop_first(), c);
        assert(escaped_default(s + seq![c]) =~= escaped_default(s) + escape_default_char(c));
    }
}

/// Append the hexadecimal numeral of `n` to `out`.
fn push_hex(out: &mut Vec<char>, n: u32)
    ensures
        final(out)@ == old(out)@ + hex_seq(n as int),
    decreases n,
{
    if n <= 15 {
        let d = (n % 16) as u8;
        out.push(if d < 10 {
            (d + 0x30) as char
        } else {
            (d - 10 + 0x61) as char
        });
        proof {
            assert(hex_seq(n as int) =~= seq![hex_digit(n as int)]);
        }
    } else {
        push_hex(out, n / 16);
        let d = (n % 16) as u8;
        out.push(if d < 10 {
            (d + 0x30) as char
        } else {
            (d - 10 + 0x61) as char
        });
        proof {
            assert(out@ =~= old(out)@ + hex_seq(n as int));
        }
    }
}

/// Append the escaped form of an entry name to `out`.
fn push_escaped_default(out: &mut Vec<char>, s: &str)
    ensures
        final(out)@ == old(out)@ + escaped_default(s@),
{
    let n = s.unicode_len();
    let mut i: usize = 0;
    proof {
        assert(s@.take(0) =~= Seq::<char>::empty());
        assert(old(out)@ + escaped_default(s@.take(0)) =~= old(out)@);
    }
    while i < n
        invariant
            n == s@.len(),
            0 <= i <= n,
            out@ == old(out)@ + escaped_default(s@.take(i as int)),
        decreases n - i,
    {
        let c = s.get_char(i);
        if c == '\t' {
            out.push('\\');
            out.push('t');
        } else if c == '\r' {
            out.push('\\');
            out.push('r');
        } else if c == '\n' {
            out.push('\\');
            out.push('n');
        } else if c == '\\' {
            out.push('\\');
            out.push('\\');
        } else if c == '\'' {
            out.push('\\');
            out.push('\'');
        } else if c == '"' {
            out.push('\\');
            out.push('"');
        } else if 0x20 <= c as u32 && c as u32 <= 0x7e {
            out.push(c);
        } else {
            out.push('\\');
            out.push('u');
            out.push('{');
            push_hex(out, c as u32);
            out.push('}');
        }
        proof {
            assert(out@ =~= old(out)@ + escaped_default(s@.take(i as int)) + escape_default_char(
                s@[i as int],
            ));
            assert(s@.take(i + 1) =~= s@.take(i as int) + seq![s@[i as int]]);
            lemma_escaped_default_snoc(s@.take(i as int), s@[i as int]);
        }
        i += 1;
    }
    proof {
        assert(s@.take(n as int) =~= s@);
    }
}

/// One line of a directory outline, the entry name under the default
/// character escape: a subdirectory is only named, a file carries its
/// module outline.
pub fn format_directory_entry(basename: &str, outline: Option<&str>) -> (r: String)
    ensures
        outline matches Some(o) ==> r@ == escaped_default(basename@) + " "@ + o@ + "\n"@,
        outline is None ==> r@ == escaped_default(basename@) + "/ (directory)\n"@,
{
    let mut out: Vec<char> = Vec::new();
    push_escaped_default(&mut out, basename);
    match outline {
        Some(o) => {
            push_str_chars(&mut out, " ");
            push_str_chars(&mut out, o);
            push_str_chars(&mut out, "\n");
            proof {
                assert(out@ =~= escaped_default(basename@) + " "@ + o@ + "\n"@);
            }
        },
        None => {
            push_str_chars(&mut out, "/ (directory)\n");
            proof {
                assert(out@ =~= escaped_default(basename@) + "/ (directory)\n"@);
            }
        },
    }
    chars_to_string(&out)
}

} // verus!
