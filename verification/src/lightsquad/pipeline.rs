//! Pipeline contract types (context vector, constraint manifest) and the
//! sanitizing feedback wire from compiler and test-runner output to the coder.
use vstd::prelude::*;
use std::collections::HashMap;
use vstd::utf8::encode_utf8;
use crate::text::{
    lemma_encode_utf8_append, lemma_utf8_len_single, lemma_trim_edges, utf8_len, char_width, lemma_utf8_len_push, char_utf8_width, chars_of, push_char, str_eq, trim,
    is_whitespace, is_whitespace_char, trimmed_bounds, string_of_range,
};
use crate::json::{json_document, parse_json_line, JsonValue};

verus! {

// ── Text sanitizing ──────────────────────────────────────────────────────────

/// ASCII letters, which end an ANSI control sequence.
pub open spec fn is_ascii_letter(c: char) -> bool {
    (0x41 <= (c as u32) <= 0x5A) || (0x61 <= (c as u32) <= 0x7A)
}

/// What follows the body of a control sequence: everything after the first
/// ASCII letter of `t`, or nothing when `t` holds no ASCII letter.
pub open spec fn skip_csi(t: Seq<char>) -> Seq<char>
    decreases t.len(),
{
    if t.len() == 0 {
        t
    } else if is_ascii_letter(t[0]) {
        t.skip(1)
    } else {
        skip_csi(t.skip(1))
    }
}

/// `skip_csi` drops a prefix of its argument.
pub proof fn lemma_skip_csi_suffix(t: Seq<char>)
    ensures
        skip_csi(t).len() <= t.len(),
        skip_csi(t) == t.skip(t.len() - skip_csi(t).len()),
    decreases t.len(),
{
    if t.len() == 0 {
        assert(t.skip(0) =~= t);
    } else if is_ascii_letter(t[0]) {
    } else {
        lemma_skip_csi_suffix(t.skip(1));
        assert(t.skip(1).skip(t.skip(1).len() - skip_csi(t.skip(1)).len()) =~= t.skip(
            t.len() - skip_csi(t.skip(1)).len(),
        ));
    }
}

/// `s` with every ANSI CSI escape sequence (`ESC [ ... <letter>`) removed.
/// An `ESC` that is not followed by `[` is kept as it is.
pub open spec fn strip_ansi_chars(s: Seq<char>) -> Seq<char>
    decreases s.len(),
{
    if s.len() == 0 {
        s
    } else if s.len() >= 2 && s[0] == '\x1b' && s[1] == '[' {
        proof {
            lemma_skip_csi_suffix(s.skip(2));
        }
        strip_ansi_chars(skip_csi(s.skip(2)))
    } else {
        seq![s[0]] + strip_ansi_chars(s.skip(1))
    }
}

/// An ASCII letter, upper or lower case (`char::is_ascii_alphabetic`).
pub open spec fn is_ascii_alphabetic(c: char) -> bool {
    ||| 0x41 <= (c as u32) <= 0x5A
    ||| 0x61 <= (c as u32) <= 0x7A
}

proof fn lemma_skip_csi_at_first_letter(p: Seq<char>, l: char, rest: Seq<char>)
    requires
        forall|i: int| 0 <= i < p.len() ==> !is_ascii_alphabetic(#[trigger] p[i]),
        is_ascii_alphabetic(l),
    ensures
        skip_csi(p + seq![l] + rest) == rest,
    decreases p.len(),
{
    let t = p + seq![l] + rest;
    if p.len() == 0 {
        assert(t =~= seq![l] + rest);
        assert(t[0] == l);
        assert(is_ascii_letter(l));
        assert(t.skip(1) =~= rest);
    } else {
        assert(t[0] == p[0]);
        assert(!is_ascii_alphabetic(p[0]));
        assert(!is_ascii_letter(t[0]));
        assert(t.skip(1) =~= p.skip(1) + seq![l] + rest);
        assert forall|i: int| 0 <= i < p.skip(1).len() implies !is_ascii_alphabetic(#[trigger] p.skip(1)[i]) by {
            assert(p.skip(1)[i] == p[i + 1]);
        }
        lemma_skip_csi_at_first_letter(p.skip(1), l, rest);
    }
}

/// A control sequence `ESC [ p L` ends at its first ASCII letter `L`, of
/// either case: stripping removes it whole and goes on with what follows.
pub proof fn lemma_strip_ansi_sequence_ends_at_letter(p: Seq<char>, l: char, rest: Seq<char>)
    requires
        forall|i: int| 0 <= i < p.len() ==> !is_ascii_alphabetic(#[trigger] p[i]),
        is_ascii_alphabetic(l),
    ensures
        strip_ansi_chars(seq!['\x1b', '['] + p + seq![l] + rest) == strip_ansi_chars(rest),
{
    let s = seq!['\x1b', '['] + p + seq![l] + rest;
    assert(s[0] == '\x1b' && s[1] == '[');
    assert(s.skip(2) =~= p + seq![l] + rest);
    lemma_skip_csi_at_first_letter(p, l, rest);
}

/// Characters outside control sequences are kept: a character other than
/// `ESC` is kept in front of the stripped rest.
pub proof fn lemma_strip_ansi_keeps_plain_char(c: char, rest: Seq<char>)
    requires
        c != '\x1b',
    ensures
        strip_ansi_chars(seq![c] + rest) == seq![c] + strip_ansi_chars(rest),
{
    let s = seq![c] + rest;
    assert(s[0] == c);
    assert(s.skip(1) =~= rest);
}

/// The longest prefix of `s` whose UTF-8 encoding fits in `max` bytes.
pub open spec fn utf8_truncate(s: Seq<char>, max: nat) -> Seq<char>
    decreases s.len(),
{
    if s.len() == 0 {
        s
    } else if char_width(s[0]) <= max {
        seq![s[0]] + utf8_truncate(s.skip(1), (max - char_width(s[0])) as nat)
    } else {
        Seq::empty()
    }
}

/// A truncated sequence fits its byte budget.
pub proof fn lemma_utf8_truncate_fits(s: Seq<char>, max: nat)
    ensures
        utf8_len(utf8_truncate(s, max)) <= max,
    decreases s.len(),
{
    if s.len() == 0 {
        assert(encode_utf8(s) =~= Seq::<u8>::empty());
    } else if char_width(s[0]) <= max {
        let rest = utf8_truncate(s.skip(1), (max - char_width(s[0])) as nat);
        lemma_utf8_truncate_fits(s.skip(1), (max - char_width(s[0])) as nat);
        lemma_encode_utf8_append(seq![s[0]], rest);
        lemma_utf8_len_single(s[0]);
    } else {
        assert(encode_utf8(Seq::<char>::empty()) =~= Seq::<u8>::empty());
    }
}

/// Every `ESC` of `s` opens a control sequence (is followed by `[`).
pub open spec fn escapes_open_sequences(s: Seq<char>) -> bool {
    forall|i: int| 0 <= i < s.len() && #[trigger] s[i] == '\x1b' ==> i + 1 < s.len() && s[i + 1] == '['
}

/// When every `ESC` of the input opens a control sequence, no `ESC` is left
/// after stripping.
pub proof fn lemma_strip_ansi_removes_escapes(s: Seq<char>)
    requires
        escapes_open_sequences(s),
    ensures
        forall|i: int| 0 <= i < strip_ansi_chars(s).len() ==> #[trigger] strip_ansi_chars(s)[i] != '\x1b',
    decreases s.len(),
{
    if s.len() == 0 {
    } else if s.len() >= 2 && s[0] == '\x1b' && s[1] == '[' {
        let t = skip_csi(s.skip(2));
        lemma_skip_csi_suffix(s.skip(2));
        let k = s.len() - t.len();
        assert(t =~= s.skip(k));
        assert forall|i: int| 0 <= i < t.len() && #[trigger] t[i] == '\x1b' implies i + 1 < t.len() && t[i + 1] == '[' by {
            assert(t[i] == s[i + k]);
        }
        lemma_strip_ansi_removes_escapes(t);
        assert(strip_ansi_chars(s) == strip_ansi_chars(t));
    } else {
        if s[0] == '\x1b' {
            assert(s[1] == '[');
        }
        let t = s.skip(1);
        assert forall|i: int| 0 <= i < t.len() && #[trigger] t[i] == '\x1b' implies i + 1 < t.len() && t[i + 1] == '[' by {
            assert(t[i] == s[i + 1]);
        }
        lemma_strip_ansi_removes_escapes(t);
        assert(strip_ansi_chars(s) == seq![s[0]] + strip_ansi_chars(t));
        assert forall|i: int| 0 <= i < strip_ansi_chars(s).len() implies #[trigger] strip_ansi_chars(s)[i] != '\x1b' by {
            if i > 0 {
                assert(strip_ansi_chars(s)[i] == strip_ansi_chars(t)[i - 1]);
            }
        }
    }
}

/// Limit on the encoded size of a diagnostic message.
pub const MESSAGE_LIMIT: usize = 512;

/// A raw message as it may reach the coder: escapes stripped, then cut to
/// the message limit.
pub open spec fn sanitize_message(raw: Seq<char>) -> Seq<char> {
    utf8_truncate(strip_ansi_chars(raw), MESSAGE_LIMIT as nat)
}

fn is_ascii_letter_exec(c: char) -> (b: bool)
    ensures
        b == is_ascii_letter(c),
{
    let u = c as u32;
    (0x41 <= u && u <= 0x5A) || (0x61 <= u && u <= 0x7A)
}

/// Strips ANSI CSI escape sequences (`ESC [ ... <letter>`) from `s`.
pub fn strip_ansi(s: &str) -> (r: String)
    ensures
        r@ == strip_ansi_chars(s@),
{
    let v = chars_of(s);
    let n = v.len();
    let mut out = String::new();
    let mut i: usize = 0;
    assert(v@.skip(0) =~= v@);
    while i < n
        invariant
            n == v@.len(),
            i <= n,
            out@ + strip_ansi_chars(v@.skip(i as int)) == strip_ansi_chars(v@),
        decreases n - i,
    {
        let ghost rest = v@.skip(i as int);
        assert(rest[0] == v@[i as int]);
        if v[i] == '\x1b' && i + 1 < n && v[i + 1] == '[' {
            assert(rest[1] == v@[i + 1]);
            assert(rest.skip(2) =~= v@.skip(i + 2));
            let mut j: usize = i + 2;
            while j < n && !is_ascii_letter_exec(v[j])
                invariant
                    n == v@.len(),
                    i + 2 <= j <= n,
                    skip_csi(v@.skip(j as int)) == skip_csi(v@.skip(i + 2)),
                decreases n - j,
            {
                assert(v@.skip(j as int)[0] == v@[j as int]);
                assert(v@.skip(j as int).skip(1) =~= v@.skip(j + 1));
                j += 1;
            }
            if j < n {
                assert(v@.skip(j as int)[0] == v@[j as int]);
                assert(v@.skip(j as int).skip(1) =~= v@.skip(j + 1));
                i = j + 1;
            } else {
                assert(v@.skip(j as int).len() == 0);
                i = n;
            }
        } else {
            assert(rest.skip(1) =~= v@.skip(i + 1));
            push_char(&mut out, v[i]);
            assert(out@ + strip_ansi_chars(v@.skip(i + 1)) =~= (out@.drop_last() + (seq![v@[i as int]] + strip_ansi_chars(v@.skip(i + 1)))));
            i += 1;
        }
    }
    assert(v@.skip(n as int).len() == 0);
    assert(out@ + strip_ansi_chars(v@.skip(n as int)) =~= out@);
    out
}

/// Truncates `s` to at most `max_bytes` bytes of UTF-8, keeping whole
/// characters: the result is the longest prefix of `s` that fits.
pub fn truncate_to_bytes(s: &str, max_bytes: usize) -> (r: String)
    ensures
        r@ == utf8_truncate(s@, max_bytes as nat),
        r@.len() <= s@.len(),
        r@ == s@.take(r@.len() as int),
        utf8_len(r@) <= max_bytes,
        r@.len() < s@.len() ==> utf8_len(s@.take(r@.len() as int + 1)) > max_bytes,
{
    let v = chars_of(s);
    let n = v.len();
    let mut k: usize = 0;
    let mut total: usize = 0;
    let mut done = false;
    assert(v@.take(0) =~= Seq::<char>::empty());
    assert(v@.skip(0) =~= v@);
    assert(utf8_len(Seq::<char>::empty()) == 0);
    while k < n && !done
        invariant
            n == v@.len(),
            k <= n,
            total == utf8_len(v@.take(k as int)),
            total <= max_bytes,
            utf8_truncate(v@, max_bytes as nat) == v@.take(k as int) + utf8_truncate(
                v@.skip(k as int),
                (max_bytes - total) as nat,
            ),
            done ==> k < n && utf8_len(v@.take(k + 1)) > max_bytes && utf8_truncate(
                v@.skip(k as int),
                (max_bytes - total) as nat,
            ) == Seq::<char>::empty(),
        decreases n - k + (if done { 0int } else { 1int }),
    {
        let w = char_utf8_width(v[k]);
        let ghost rest = v@.skip(k as int);
        assert(rest[0] == v@[k as int]);
        assert(rest.skip(1) =~= v@.skip(k + 1));
        assert(v@.take(k + 1) =~= v@.take(k as int).push(v@[k as int]));
        proof {
            lemma_utf8_len_push(v@.take(k as int), v@[k as int]);
        }
        if w <= max_bytes - total {
            assert(v@.take(k as int) + (seq![v@[k as int]] + utf8_truncate(v@.skip(k + 1), (max_bytes - total - w) as nat))
                =~= v@.take(k + 1) + utf8_truncate(v@.skip(k + 1), (max_bytes - total - w) as nat));
            total = total + w;
            k = k + 1;
        } else {
            done = true;
        }
    }
    assert(v@.skip(n as int).len() == 0);
    assert(v@.take(k as int) + Seq::<char>::empty() =~= v@.take(k as int));
    let r = s.substring_char(0, k).to_owned();
    r
}


// ── Layer A: environment manifest ────────────────────────────────────────────

/// Locked execution environment (layer A of the context vector): runtime,
/// edition and exact crate versions the coder agent must target.
#[derive(Debug, Clone)]
#[non_exhaustive]
pub struct EnvironmentManifest {
    /// Runtime identifier, e.g. `"Rust 1.87.0"`.
    pub runtime: String,
    /// Rust edition, e.g. `"2024"`.
    pub edition: String,
    /// Active Cargo features for this build.
    pub active_features: Vec<String>,
    /// Exact locked crate versions (`crate_name` → `"x.y.z"`).
    pub strict_lockfile: HashMap<String, String>,
}

impl EnvironmentManifest {
    /// An environment manifest with no features and an empty lockfile.
    pub fn new(runtime: String, edition: String) -> (r: Self)
        ensures
            r.runtime == runtime,
            r.edition == edition,
            r.active_features@ == Seq::<String>::empty(),
            r.strict_lockfile@ == Map::<String, String>::empty(),
    {
        EnvironmentManifest {
            runtime,
            edition,
            active_features: Vec::new(),
            strict_lockfile: HashMap::new(),
        }
    }
}

// ── Layer B: interface stubs ─────────────────────────────────────────────────

/// A single interface stub: struct layouts and `fn` signatures, no bodies.
#[derive(Debug, Clone)]
#[non_exhaustive]
pub struct InterfaceStub {
    /// Relative path to the source file within the worktree.
    pub source_path: String,
    /// Struct layouts, trait declarations and `fn` signatures only.
    pub signature_text: String,
}

impl InterfaceStub {
    /// A new interface stub.
    pub fn new(source_path: String, signature_text: String) -> (r: Self)
        ensures
            r.source_path == source_path,
            r.signature_text == signature_text,
    {
        InterfaceStub { source_path, signature_text }
    }
}

// ── Layer C: constraint manifest ─────────────────────────────────────────────

/// Machine-readable hard constraints (layer C of the context vector).
#[derive(Debug, Clone)]
#[non_exhaustive]
pub struct ConstraintManifest {
    /// Forbid heap allocation in inner loops.
    pub no_heap_alloc_inner_loops: bool,
    /// Forbid `.unwrap()` calls in production code paths.
    pub no_unwrap: bool,
    /// Forbid `.expect()` calls in production code paths.
    pub no_expect: bool,
    /// Require `Send + Sync` bounds on all shared state.
    pub send_sync_required: bool,
    /// Forbid importing crates absent from the strict lockfile.
    pub no_unlisted_deps: bool,
    /// Additional absolute constraints as free-form prose.
    pub custom: Vec<String>,
}

impl ConstraintManifest {
    /// All boolean flags disabled, no custom constraints.
    pub fn default_off() -> (r: Self)
        ensures
            !r.no_heap_alloc_inner_loops,
            !r.no_unwrap,
            !r.no_expect,
            !r.send_sync_required,
            !r.no_unlisted_deps,
            r.custom@ == Seq::<String>::empty(),
    {
        ConstraintManifest {
            no_heap_alloc_inner_loops: false,
            no_unwrap: false,
            no_expect: false,
            send_sync_required: false,
            no_unlisted_deps: false,
            custom: Vec::new(),
        }
    }

    /// All standard Rust safety obligations enabled; heap allocation in inner
    /// loops stays allowed, as it is context-dependent.
    pub fn rust_canon() -> (r: Self)
        ensures
            !r.no_heap_alloc_inner_loops,
            r.no_unwrap,
            r.no_expect,
            r.send_sync_required,
            r.no_unlisted_deps,
            r.custom@ == Seq::<String>::empty(),
    {
        ConstraintManifest {
            no_heap_alloc_inner_loops: false,
            no_unwrap: true,
            no_expect: true,
            send_sync_required: true,
            no_unlisted_deps: true,
            custom: Vec::new(),
        }
    }
}

// ── Context vector ───────────────────────────────────────────────────────────

/// Assembled three-layer context passed to a pipeline agent at spawn.
#[derive(Debug, Clone)]
#[non_exhaustive]
pub struct ContextVector {
    /// Layer A: locked execution environment.
    pub env: EnvironmentManifest,
    /// Layer B: interface stubs.
    pub stubs: Vec<InterfaceStub>,
    /// Layer C: hard constraint manifest.
    pub constraints: ConstraintManifest,
}

impl ContextVector {
    /// A context vector of the three given layers.
    pub fn new(env: EnvironmentManifest, stubs: Vec<InterfaceStub>, constraints: ConstraintManifest) -> (r: Self)
        ensures
            r.env == env,
            r.stubs == stubs,
            r.constraints == constraints,
    {
        ContextVector { env, stubs, constraints }
    }
}

// ── Safe feedback wire ───────────────────────────────────────────────────────

/// A single allowlist-parsed compiler or test-runner diagnostic.
#[derive(Debug, Clone, PartialEq)]
#[non_exhaustive]
pub struct CompilerDiagnostic {
    /// Relative file path where the diagnostic originates.
    pub file: String,
    /// Line number (1-indexed; 0 for test failures).
    pub line: u32,
    /// Rust error code, if any (e.g. `"E0308"`).
    pub error_code: Option<String>,
    /// Diagnostic message, escapes stripped and cut to the message limit.
    pub message: String,
}

/// The contents of a [`CompilerDiagnostic`] as character sequences.
pub struct DiagnosticView {
    pub file: Seq<char>,
    pub line: u32,
    pub error_code: Option<Seq<char>>,
    pub message: Seq<char>,
}

impl View for CompilerDiagnostic {
    type V = DiagnosticView;

    open spec fn view(&self) -> DiagnosticView {
        DiagnosticView {
            file: self.file@,
            line: self.line,
            error_code: match self.error_code {
                Some(c) => Some(c@),
                None => None,
            },
            message: self.message@,
        }
    }
}

impl CompilerDiagnostic {
    /// A diagnostic without an error code.
    pub fn new(file: String, line: u32, message: String) -> (r: Self)
        ensures
            r.file == file,
            r.line == line,
            r.error_code is None,
            r.message == message,
    {
        CompilerDiagnostic { file, line, error_code: None, message }
    }

    /// A diagnostic with a Rust error code.
    pub fn with_error_code(file: String, line: u32, error_code: String, message: String) -> (r: Self)
        ensures
            r.file == file,
            r.line == line,
            r.error_code == Some(error_code),
            r.message == message,
    {
        CompilerDiagnostic { file, line, error_code: Some(error_code), message }
    }
}

/// Sanitized tester-to-coder feedback: allowlist-parsed diagnostics of one
/// correction iteration.
#[derive(Debug, Clone, PartialEq)]
#[non_exhaustive]
pub struct SanitizedTrace {
    /// One entry per compiler error or test failure.
    pub diagnostics: Vec<CompilerDiagnostic>,
    /// Zero-indexed correction iteration.
    pub loop_index: u8,
}

impl SanitizedTrace {
    /// An empty trace for the given iteration.
    pub fn new(loop_index: u8) -> (r: Self)
        ensures
            r.diagnostics@ == Seq::<CompilerDiagnostic>::empty(),
            r.loop_index == loop_index,
    {
        SanitizedTrace { diagnostics: Vec::new(), loop_index }
    }

    /// A trace holding already parsed diagnostics.
    pub fn with_diagnostics(loop_index: u8, diagnostics: Vec<CompilerDiagnostic>) -> (r: Self)
        ensures
            r.diagnostics == diagnostics,
            r.loop_index == loop_index,
    {
        SanitizedTrace { diagnostics, loop_index }
    }
}

/// Error of sanitizing compiler output.
#[derive(Debug, PartialEq)]
pub enum SanitizeError {
    /// The compiler output was empty or held only whitespace.
    EmptyInput,
}

// ── Structural allowlist over parsed cargo messages ─────────────────────────

/// The string field `key` of `j`.
pub open spec fn field_str(j: JsonValue, key: Seq<char>) -> Option<Seq<char>> {
    match j.field(key) {
        Some(v) => v.str_value(),
        None => None,
    }
}

/// The boolean field `key` of `j`.
pub open spec fn field_bool(j: JsonValue, key: Seq<char>) -> Option<bool> {
    match j.field(key) {
        Some(v) => v.bool_value(),
        None => None,
    }
}

/// The unsigned integer field `key` of `j`.
pub open spec fn field_u64(j: JsonValue, key: Seq<char>) -> Option<u64> {
    match j.field(key) {
        Some(v) => v.u64_value(),
        None => None,
    }
}

/// The array field `key` of `j`.
pub open spec fn field_array(j: JsonValue, key: Seq<char>) -> Option<Seq<JsonValue>> {
    match j.field(key) {
        Some(v) => v.array_value(),
        None => None,
    }
}

/// A span marked `"is_primary": true`.
pub open spec fn is_primary_span(span: JsonValue) -> bool {
    field_bool(span, "is_primary"@) == Some(true)
}

/// The first primary span.
pub open spec fn first_primary_span(spans: Seq<JsonValue>) -> Option<JsonValue>
    decreases spans.len(),
{
    if spans.len() == 0 {
        None
    } else if is_primary_span(spans[0]) {
        Some(spans[0])
    } else {
        first_primary_span(spans.skip(1))
    }
}

/// The span that locates a compiler message: the first primary span, else
/// the first span.
pub open spec fn location_span(spans: Seq<JsonValue>) -> Option<JsonValue> {
    match first_primary_span(spans) {
        Some(s) => Some(s),
        None => if spans.len() > 0 { Some(spans[0]) } else { None },
    }
}

/// The error code of a compiler message (`message.code.code`).
pub open spec fn error_code_of(msg: JsonValue) -> Option<Seq<char>> {
    match msg.field("code"@) {
        Some(c) => field_str(c, "code"@),
        None => None,
    }
}

/// The diagnostic a `cargo --message-format=json` compiler-message line
/// yields: `reason` is `"compiler-message"`, the message has a text and a
/// span list, the location span names a non-empty file and a non-zero line.
pub open spec fn compiler_message_view(json: JsonValue) -> Option<DiagnosticView> {
    if field_str(json, "reason"@) != Some("compiler-message"@) {
        None
    } else {
        match json.field("message"@) {
            None => None,
            Some(msg) => match (field_str(msg, "message"@), field_array(msg, "spans"@)) {
                (Some(raw), Some(spans)) => match location_span(spans) {
                    Some(span) => match (field_str(span, "file_name"@), field_u64(span, "line_start"@)) {
                        (Some(file), Some(l)) => if file.len() == 0 || l as u32 == 0 {
                            None
                        } else {
                            Some(DiagnosticView {
                                file,
                                line: l as u32,
                                error_code: error_code_of(msg),
                                message: sanitize_message(raw),
                            })
                        },
                        _ => None,
                    },
                    None => None,
                },
                _ => None,
            },
        }
    }
}

/// The diagnostic a `cargo test --message-format=json` line yields: a
/// failed test event with a name; the message is its sanitized `stdout`, or,
/// when that is empty, the sanitized `"<name> failed"`.
pub open spec fn test_failure_view(json: JsonValue) -> Option<DiagnosticView> {
    if field_str(json, "type"@) != Some("test"@) || field_str(json, "event"@) != Some("failed"@) {
        None
    } else {
        match field_str(json, "name"@) {
            None => None,
            Some(name) => {
                let stdout = match field_str(json, "stdout"@) {
                    Some(s) => s,
                    None => Seq::empty(),
                };
                let text = sanitize_message(stdout);
                Some(DiagnosticView {
                    file: "test::"@ + name,
                    line: 0,
                    error_code: None,
                    message: if text.len() == 0 { sanitize_message(name + " failed"@) } else { text },
                })
            },
        }
    }
}

/// Only failed tests are reported: a line yields a test diagnostic exactly
/// when its `type` is `"test"`, its `event` is `"failed"` and it names the
/// test; the diagnostic's file is `test::<name>` at line 0, without an error
/// code. Any other event (`"ok"`, `"ignored"`, `"started"`, ...) yields none.
pub proof fn lemma_test_diagnostic_only_for_failed_tests(json: JsonValue)
    ensures
        test_failure_view(json) is Some <==> (field_str(json, "type"@) == Some("test"@) && field_str(json, "event"@)
            == Some("failed"@) && field_str(json, "name"@) is Some),
        test_failure_view(json) matches Some(d) ==> d.file == "test::"@ + field_str(json, "name"@)->0 && d.line == 0
            && d.error_code is None,
{
}

/// Only compiler messages are reported as compiler diagnostics: a line
/// whose `reason` is not `"compiler-message"` yields none.
pub proof fn lemma_compiler_diagnostic_only_for_compiler_messages(json: JsonValue)
    ensures
        field_str(json, "reason"@) != Some("compiler-message"@) ==> compiler_message_view(json) is None,
{
}

/// A compiler-message diagnostic names a file and a line, and its message
/// fits the message limit.
pub proof fn lemma_compiler_diagnostic_well_formed(json: JsonValue)
    ensures
        compiler_message_view(json) matches Some(d) ==> d.file.len() > 0 && d.line > 0 && utf8_len(
            d.message,
        ) <= MESSAGE_LIMIT,
{
    if compiler_message_view(json) is Some {
        let msg = json.field("message"@)->0;
        lemma_utf8_truncate_fits(strip_ansi_chars(field_str(msg, "message"@)->0), MESSAGE_LIMIT as nat);
    }
}

/// A failed-test diagnostic has line 0 and a message that fits the message
/// limit.
pub proof fn lemma_test_diagnostic_message_fits(json: JsonValue)
    ensures
        test_failure_view(json) matches Some(d) ==> d.line == 0 && utf8_len(d.message) <= MESSAGE_LIMIT,
{
    if test_failure_view(json) is Some {
        let name = field_str(json, "name"@)->0;
        let stdout = match field_str(json, "stdout"@) {
            Some(s) => s,
            None => Seq::<char>::empty(),
        };
        lemma_utf8_truncate_fits(strip_ansi_chars(stdout), MESSAGE_LIMIT as nat);
        lemma_utf8_truncate_fits(strip_ansi_chars(name + " failed"@), MESSAGE_LIMIT as nat);
    }
}

/// The diagnostic one line of cargo output yields, if any; a line that is
/// not well-formed JSON is `None`.
pub open spec fn line_diagnostic(line: Option<JsonValue>) -> Option<DiagnosticView> {
    match line {
        None => None,
        Some(j) => match compiler_message_view(j) {
            Some(d) => Some(d),
            None => test_failure_view(j),
        },
    }
}

/// The diagnostics of a sequence of parsed lines, in order.
pub open spec fn diagnostics_of(lines: Seq<Option<JsonValue>>) -> Seq<DiagnosticView>
    decreases lines.len(),
{
    if lines.len() == 0 {
        Seq::empty()
    } else {
        let prev = diagnostics_of(lines.drop_last());
        match line_diagnostic(lines.last()) {
            Some(d) => prev.push(d),
            None => prev,
        }
    }
}

/// Every diagnostic of every parsed output has a message that fits the
/// message limit.
pub proof fn lemma_diagnostic_messages_fit(lines: Seq<Option<JsonValue>>)
    ensures
        forall|i: int|
            0 <= i < diagnostics_of(lines).len() ==> utf8_len(#[trigger] diagnostics_of(lines)[i].message)
                <= MESSAGE_LIMIT,
    decreases lines.len(),
{
    if lines.len() > 0 {
        lemma_diagnostic_messages_fit(lines.drop_last());
        match lines.last() {
            Some(j) => {
                lemma_compiler_diagnostic_well_formed(j);
                lemma_test_diagnostic_message_fits(j);
            },
            None => {},
        }
    }
}

/// The diagnostics of two runs of lines, one after the other, are those of
/// the first followed by those of the second.
pub proof fn lemma_diagnostics_of_append(x: Seq<Option<JsonValue>>, y: Seq<Option<JsonValue>>)
    ensures
        diagnostics_of(x + y) == diagnostics_of(x) + diagnostics_of(y),
    decreases y.len(),
{
    if y.len() == 0 {
        assert(x + y =~= x);
        assert(diagnostics_of(x) + diagnostics_of(y) =~= diagnostics_of(x));
    } else {
        lemma_diagnostics_of_append(x, y.drop_last());
        assert((x + y).drop_last() =~= x + y.drop_last());
        assert((x + y).last() == y.last());
        match line_diagnostic(y.last()) {
            Some(d) => {
                assert(diagnostics_of(x) + diagnostics_of(y) =~= (diagnostics_of(x) + diagnostics_of(
                    y.drop_last(),
                )).push(d));
            },
            None => {},
        }
    }
}

/// The string value of field `key`, if present and a string.
fn get_str<'a>(j: &'a JsonValue, key: &str) -> (r: Option<&'a str>)
    ensures
        match r {
            Some(s) => field_str(*j, key@) == Some(s@),
            None => field_str(*j, key@) is None,
        },
{
    match j.get(key) {
        Some(v) => v.as_str(),
        None => None,
    }
}

/// Whether the field `key` of `j` is a string equal to `expected`.
fn field_is(j: &JsonValue, key: &str, expected: &str) -> (b: bool)
    ensures
        b == (field_str(*j, key@) == Some(expected@)),
{
    match get_str(j, key) {
        Some(s) => str_eq(s, expected),
        None => false,
    }
}

/// Strips escapes from a raw message and cuts it to the message limit.
pub fn sanitize_text(raw: &str) -> (r: String)
    ensures
        r@ == sanitize_message(raw@),
{
    let stripped = strip_ansi(raw);
    truncate_to_bytes(stripped.as_str(), MESSAGE_LIMIT)
}

/// The location span of a span list.
fn find_location_span(spans: &Vec<JsonValue>) -> (r: Option<&JsonValue>)
    ensures
        match r {
            Some(s) => location_span(spans@) == Some(*s),
            None => location_span(spans@) is None,
        },
{
    let mut i: usize = 0;
    assert(spans@.skip(0) =~= spans@);
    while i < spans.len()
        invariant
            i <= spans@.len(),
            first_primary_span(spans@) == first_primary_span(spans@.skip(i as int)),
        decreases spans@.len() - i,
    {
        assert(spans@.skip(i as int)[0] == spans@[i as int]);
        assert(spans@.skip(i as int).skip(1) =~= spans@.skip(i + 1));
        let primary = match spans[i].get("is_primary") {
            Some(p) => match p.as_bool() {
                Some(b) => b,
                None => false,
            },
            None => false,
        };
        if primary {
            return Some(&spans[i]);
        }
        i += 1;
    }
    assert(spans@.skip(i as int).len() == 0);
    if spans.len() > 0 {
        Some(&spans[0])
    } else {
        None
    }
}

/// Extracts the diagnostic of a compiler-message line
/// (`cargo build/check --message-format=json`).
pub fn parse_compiler_message(json: &JsonValue) -> (r: Option<CompilerDiagnostic>)
    ensures
        match r {
            Some(d) => compiler_message_view(*json) == Some(d@),
            None => compiler_message_view(*json) is None,
        },
{
    if !field_is(json, "reason", "compiler-message") {
        return None;
    }
    let msg = json.get("message")?;
    let error_code = match msg.get("code") {
        Some(c) => match get_str(c, "code") {
            Some(s) => Some(s.to_owned()),
            None => None,
        },
        None => None,
    };
    let raw = get_str(msg, "message")?;
    let spans = msg.get("spans")?.as_array()?;
    let span = find_location_span(spans)?;
    let file = get_str(span, "file_name")?;
    let line_start = span.get("line_start")?.as_u64()?;
    let line = line_start as u32;
    if file.is_empty() || line == 0 {
        return None;
    }
    let message = sanitize_text(raw);
    Some(CompilerDiagnostic { file: file.to_owned(), line, error_code, message })
}

/// Extracts the diagnostic of a failed-test line
/// (`cargo test --message-format=json`).
pub fn parse_test_failure(json: &JsonValue) -> (r: Option<CompilerDiagnostic>)
    ensures
        match r {
            Some(d) => test_failure_view(*json) == Some(d@),
            None => test_failure_view(*json) is None,
        },
{
    if !field_is(json, "type", "test") {
        return None;
    }
    if !field_is(json, "event", "failed") {
        return None;
    }
    let name = get_str(json, "name")?;
    proof {
        reveal_strlit("");
    }
    let stdout = match get_str(json, "stdout") {
        Some(s) => s,
        None => "",
    };
    let text = sanitize_text(stdout);
    let mut file = "test::".to_owned();
    file.append(name);
    let message = if text.as_str().is_empty() {
        let mut m = name.to_owned();
        m.append(" failed");
        sanitize_text(m.as_str())
    } else {
        text
    };
    Some(CompilerDiagnostic { file, line: 0, error_code: None, message })
}

// ── Line framing of cargo output ─────────────────────────────────────────────

/// `lines` extended by the trimmed form of `line`, unless that is empty.
pub open spec fn keep_line(lines: Seq<Seq<char>>, line: Seq<char>) -> Seq<Seq<char>> {
    if trim(line).len() == 0 {
        lines
    } else {
        lines.push(trim(line))
    }
}

/// The characters after the last `'\n'` of `s`.
pub open spec fn pending_line(s: Seq<char>) -> Seq<char>
    decreases s.len(),
{
    if s.len() == 0 {
        s
    } else if s.last() == '\n' {
        Seq::empty()
    } else {
        pending_line(s.drop_last()).push(s.last())
    }
}

/// The trimmed, non-blank lines of `s` that a `'\n'` ends.
pub open spec fn finished_lines(s: Seq<char>) -> Seq<Seq<char>>
    decreases s.len(),
{
    if s.len() == 0 {
        Seq::empty()
    } else if s.last() == '\n' {
        keep_line(finished_lines(s.drop_last()), pending_line(s.drop_last()))
    } else {
        finished_lines(s.drop_last())
    }
}

/// The trimmed, non-blank lines of `s`, in order.
pub open spec fn nonblank_lines(s: Seq<char>) -> Seq<Seq<char>> {
    keep_line(finished_lines(s), pending_line(s))
}

/// Every character of `s` is whitespace (so `s` trims to nothing).
pub open spec fn all_whitespace(s: Seq<char>) -> bool {
    forall|i: int| 0 <= i < s.len() ==> is_whitespace(#[trigger] s[i])
}

/// A line that is non-empty and neither starts nor ends with whitespace.
pub open spec fn is_trimmed_line(l: Seq<char>) -> bool {
    l.len() > 0 && !is_whitespace(l[0]) && !is_whitespace(l.last())
}

/// Every framed line is non-empty and neither starts nor ends with
/// whitespace.
pub proof fn lemma_nonblank_lines_trimmed(s: Seq<char>)
    ensures
        forall|i: int| 0 <= i < nonblank_lines(s).len() ==> is_trimmed_line(#[trigger] nonblank_lines(s)[i]),
{
    lemma_finished_lines_trimmed(s);
    lemma_trim_edges(pending_line(s));
}

proof fn lemma_finished_lines_trimmed(s: Seq<char>)
    ensures
        forall|i: int| 0 <= i < finished_lines(s).len() ==> is_trimmed_line(#[trigger] finished_lines(s)[i]),
    decreases s.len(),
{
    if s.len() > 0 {
        let prev = finished_lines(s.drop_last());
        let line = pending_line(s.drop_last());
        lemma_finished_lines_trimmed(s.drop_last());
        lemma_trim_edges(line);
        if s.last() == '\n' && trim(line).len() > 0 {
            assert forall|i: int| 0 <= i < finished_lines(s).len() implies is_trimmed_line(
                #[trigger] finished_lines(s)[i],
            ) by {
                if i < prev.len() {
                    assert(finished_lines(s)[i] == prev[i]);
                } else {
                    assert(finished_lines(s)[i] == trim(line));
                }
            }
        }
    }
}

proof fn lemma_lines_after_newline(p: Seq<char>, b: Seq<char>)
    requires
        p.len() > 0,
        p.last() == '\n',
    ensures
        pending_line(p + b) == pending_line(b),
        finished_lines(p + b) == finished_lines(p) + finished_lines(b),
    decreases b.len(),
{
    if b.len() == 0 {
        assert(p + b =~= p);
        assert(finished_lines(p) + finished_lines(b) =~= finished_lines(p));
    } else {
        lemma_lines_after_newline(p, b.drop_last());
        assert((p + b).drop_last() =~= p + b.drop_last());
        assert((p + b).last() == b.last());
        if b.last() == '\n' {
            let l = pending_line(b.drop_last());
            if trim(l).len() > 0 {
                assert(finished_lines(p) + finished_lines(b) =~= (finished_lines(p) + finished_lines(
                    b.drop_last(),
                )).push(trim(l)));
            }
        }
    }
}

/// Joining two outputs with a newline frames the lines of the first and
/// then those of the second.
pub proof fn lemma_nonblank_lines_join(a: Seq<char>, b: Seq<char>)
    ensures
        nonblank_lines(a + seq!['\n'] + b) == nonblank_lines(a) + nonblank_lines(b),
{
    let p = a + seq!['\n'];
    assert(p.drop_last() =~= a);
    assert(p.last() == '\n');
    lemma_lines_after_newline(p, b);
    assert(finished_lines(p) == nonblank_lines(a));
    let l = pending_line(b);
    if trim(l).len() > 0 {
        assert(nonblank_lines(a) + nonblank_lines(b) =~= (nonblank_lines(a) + finished_lines(b)).push(trim(l)));
    }
}

/// The diagnostics of cargo output when each framed line is parsed with
/// `parse` (`None` for a line that is not well-formed JSON).
pub open spec fn output_diagnostics(input: Seq<char>, parse: spec_fn(Seq<char>) -> Option<JsonValue>) -> Seq<
    DiagnosticView,
> {
    diagnostics_of(nonblank_lines(input).map_values(parse))
}

/// Parsing two outputs joined by a newline gives the diagnostics of the
/// first followed by those of the second; the joined output is blank only
/// when both are.
pub proof fn lemma_output_diagnostics_join(
    a: Seq<char>,
    b: Seq<char>,
    parse: spec_fn(Seq<char>) -> Option<JsonValue>,
)
    ensures
        output_diagnostics(a + seq!['\n'] + b, parse) == output_diagnostics(a, parse) + output_diagnostics(
            b,
            parse,
        ),
        all_whitespace(a + seq!['\n'] + b) <==> all_whitespace(a) && all_whitespace(b),
{
    lemma_nonblank_lines_join(a, b);
    let la = nonblank_lines(a);
    let lb = nonblank_lines(b);
    assert((la + lb).map_values(parse) =~= la.map_values(parse) + lb.map_values(parse));
    lemma_diagnostics_of_append(la.map_values(parse), lb.map_values(parse));
    let s = a + seq!['\n'] + b;
    assert(is_whitespace('\n'));
    if all_whitespace(a) && all_whitespace(b) {
        assert forall|i: int| 0 <= i < s.len() implies is_whitespace(#[trigger] s[i]) by {
            if i < a.len() {
                assert(s[i] == a[i]);
            } else if i > a.len() {
                assert(s[i] == b[i - a.len() - 1]);
            }
        }
    }
    if all_whitespace(s) {
        assert forall|i: int| 0 <= i < a.len() implies is_whitespace(#[trigger] a[i]) by {
            assert(s[i] == a[i]);
        }
        assert forall|i: int| 0 <= i < b.len() implies is_whitespace(#[trigger] b[i]) by {
            assert(s[i + a.len() + 1] == b[i]);
        }
    }
}

/// Frames cargo's NDJSON output: its trimmed, non-blank lines, each of which
/// is one JSON document to parse. Blank output is an error.
pub fn cargo_output_lines(input: &str) -> (r: Result<Vec<String>, SanitizeError>)
    ensures
        match r {
            Err(e) => e == SanitizeError::EmptyInput && all_whitespace(input@),
            Ok(lines) => !all_whitespace(input@) && lines@.map_values(|l: String| l@)
                == nonblank_lines(input@),
        },
{
    let v = chars_of(input);
    let n = v.len();
    let mut i: usize = 0;
    while i < n && is_whitespace_char(v[i])
        invariant
            n == v@.len(),
            i <= n,
            forall|j: int| 0 <= j < i ==> is_whitespace(#[trigger] v@[j]),
        decreases n - i,
    {
        i += 1;
    }
    if i == n {
        return Err(SanitizeError::EmptyInput);
    }
    assert(!is_whitespace(v@[i as int]));
    let mut out: Vec<String> = Vec::new();
    let mut start: usize = 0;
    let mut k: usize = 0;
    assert(v@.take(0) =~= Seq::<char>::empty());
    assert(v@.subrange(0, 0) =~= Seq::<char>::empty());
    while k < n
        invariant
            n == v@.len(),
            start <= k <= n,
            out@.map_values(|l: String| l@) == finished_lines(v@.take(k as int)),
            pending_line(v@.take(k as int)) == v@.subrange(start as int, k as int),
        decreases n - k,
    {
        assert(v@.take(k + 1).drop_last() =~= v@.take(k as int));
        assert(v@.take(k + 1).last() == v@[k as int]);
        if v[k] == '\n' {
            let (a, b) = trimmed_bounds(&v, start, k);
            if a < b {
                let line = string_of_range(&v, a, b);
                let ghost before = out@;
                out.push(line);
                assert(out@.map_values(|l: String| l@) =~= before.map_values(|l: String| l@).push(
                    line@,
                ));
            }
            start = k + 1;
            assert(v@.subrange(start as int, k + 1) =~= Seq::<char>::empty());
        } else {
            assert(v@.subrange(start as int, k + 1) =~= v@.subrange(start as int, k as int).push(
                v@[k as int],
            ));
        }
        k += 1;
    }
    assert(v@.take(n as int) =~= v@);
    let (a, b) = trimmed_bounds(&v, start, n);
    if a < b {
        let line = string_of_range(&v, a, b);
        let ghost before = out@;
        out.push(line);
        assert(out@.map_values(|l: String| l@) =~= before.map_values(|l: String| l@).push(line@));
    }
    Ok(out)
}

/// The diagnostics of `cargo --message-format=json` output: those of its
/// framed lines, each parsed as one JSON document.
pub open spec fn cargo_trace(input: Seq<char>) -> Seq<DiagnosticView> {
    output_diagnostics(input, |l: Seq<char>| json_document(l))
}

/// The trace of two outputs joined by a newline is the trace of the first
/// followed by that of the second; the joined output is blank only when both
/// are.
pub proof fn lemma_cargo_trace_join(a: Seq<char>, b: Seq<char>)
    ensures
        cargo_trace(a + seq!['\n'] + b) == cargo_trace(a) + cargo_trace(b),
        all_whitespace(a + seq!['\n'] + b) <==> all_whitespace(a) && all_whitespace(b),
{
    lemma_output_diagnostics_join(a, b, |l: Seq<char>| json_document(l));
}

impl SanitizedTrace {
    /// The trace of parsed cargo output lines (`None` for a line that was not
    /// well-formed JSON): each line yields its compiler-message diagnostic,
    /// else its failed-test diagnostic, else nothing.
    pub fn from_parsed_lines(lines: &Vec<Option<JsonValue>>, loop_index: u8) -> (r: Self)
        ensures
            r.loop_index == loop_index,
            r.diagnostics@.map_values(|d: CompilerDiagnostic| d@) == diagnostics_of(lines@),
    {
        let mut diagnostics: Vec<CompilerDiagnostic> = Vec::new();
        let mut i: usize = 0;
        assert(lines@.take(0) =~= Seq::<Option<JsonValue>>::empty());
        while i < lines.len()
            invariant
                i <= lines@.len(),
                diagnostics@.map_values(|d: CompilerDiagnostic| d@) == diagnostics_of(lines@.take(i as int)),
            decreases lines@.len() - i,
        {
            assert(lines@.take(i + 1).drop_last() =~= lines@.take(i as int));
            assert(lines@.take(i + 1).last() == lines@[i as int]);
            match &lines[i] {
                Some(json) => {
                    match parse_compiler_message(json) {
                        Some(d) => {
                            diagnostics.push(d);
                        },
                        None => match parse_test_failure(json) {
                            Some(d) => {
                                diagnostics.push(d);
                            },
                            None => {},
                        },
                    }
                },
                None => {},
            }
            assert(diagnostics@.map_values(|d: CompilerDiagnostic| d@) =~= diagnostics_of(lines@.take(i + 1)));
            i += 1;
        }
        assert(lines@.take(lines@.len() as int) =~= lines@);
        SanitizedTrace { diagnostics, loop_index }
    }

    /// Parses `cargo --message-format=json` output into a sanitized trace:
    /// each trimmed, non-blank line is parsed as a JSON document; compiler
    /// messages and failed tests become diagnostics (escapes stripped,
    /// messages cut to 512 bytes); other and malformed lines are dropped.
    /// Blank output is an error.
    pub fn from_cargo_json(input: &str, loop_index: u8) -> (r: Result<SanitizedTrace, SanitizeError>)
        ensures
            match r {
                Err(e) => e == SanitizeError::EmptyInput && all_whitespace(input@),
                Ok(t) => !all_whitespace(input@) && t.loop_index == loop_index && t.diagnostics@.map_values(
                    |d: CompilerDiagnostic| d@,
                ) == cargo_trace(input@),
            },
    {
        let lines = cargo_output_lines(input)?;
        let ghost framed = nonblank_lines(input@);
        let mut parsed: Vec<Option<JsonValue>> = Vec::new();
        let mut i: usize = 0;
        while i < lines.len()
            invariant
                i <= lines@.len(),
                lines@.map_values(|l: String| l@) == framed,
                parsed@ == framed.take(i as int).map_values(|l: Seq<char>| json_document(l)),
            decreases lines@.len() - i,
        {
            assert(framed[i as int] == lines@[i as int]@);
            let line = lines[i].as_str();
            assert(line@ == framed[i as int]);
            let doc = parse_json_line(line);
            assert(doc == json_document(framed[i as int]));
            parsed.push(doc);
            assert(framed.take(i + 1) =~= framed.take(i as int).push(framed[i as int]));
            assert(framed.take(i + 1).map_values(|l: Seq<char>| json_document(l)) =~= framed.take(
                i as int,
            ).map_values(|l: Seq<char>| json_document(l)).push(json_document(framed[i as int])));
            assert(parsed@ =~= framed.take(i + 1).map_values(|l: Seq<char>| json_document(l)));
            i += 1;
        }
        assert(framed.take(lines@.len() as int) =~= framed);
        Ok(SanitizedTrace::from_parsed_lines(&parsed, loop_index))
    }
}

} // verus!
