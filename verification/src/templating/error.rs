//! Template errors: where in the source a rendering error is, why, and what
//! might help.

use vstd::prelude::*;
use vstd::string::*;
use vstd::utf8::{encode_utf8, encode_scalar};
use crate::strutil::{to_owned_string, opt_str_view};
use minijinja::ErrorKind;

verus! {

broadcast use vstd::string::group_string_axioms;

/// The kinds of rendering errors.
#[derive(Debug, Clone, Copy, PartialEq, Eq, Structural)]
pub enum TemplateErrorKind {
    UndefinedError,
    SyntaxError,
    TemplateNotFound,
    InvalidOperation,
    TooManyArguments,
    MissingArgument,
    UnknownFilter,
    UnknownFunction,
    UnknownMethod,
    BadInclude,
    BadEscape,
    CannotUnpack,
    CannotDeserialize,
    WriteFailure,
    /// Any other kind.
    Other,
}

/// What a rendering error tells about itself.
#[derive(Debug, PartialEq)]
pub struct ErrorInfo {
    pub kind: TemplateErrorKind,
    /// Further details of the error.
    pub detail: Option<String>,
    /// The line (from 1) the error is on.
    pub line: Option<usize>,
    /// The byte range the error covers.
    pub range: Option<(usize, usize)>,
    /// The error's full display text.
    pub display: String,
}

/// A place in the source text: a byte offset and a length.
#[derive(Debug, Clone, Copy, PartialEq, Eq, Structural)]
pub struct ErrorSpan {
    pub offset: usize,
    pub length: usize,
}

/// The number of bytes of the UTF-8 encoding of `s`.
pub open spec fn byte_len(s: Seq<char>) -> nat {
    encode_utf8(s).len()
}

/// The encoding of a concatenation is the concatenation of the encodings.
pub proof fn lemma_encode_concat(a: Seq<char>, b: Seq<char>)
    ensures
        encode_utf8(a + b) == encode_utf8(a) + encode_utf8(b),
    decreases a.len(),
{
    if a.len() == 0 {
        assert(a + b =~= b);
        assert(encode_utf8(a) + encode_utf8(b) =~= encode_utf8(b));
    } else {
        assert((a + b).drop_first() =~= a.drop_first() + b);
        lemma_encode_concat(a.drop_first(), b);
        assert(encode_utf8(a + b) =~= encode_scalar(a[0] as u32) + (encode_utf8(a.drop_first()) + encode_utf8(b)));
    }
}

/// The byte length of one more character.
pub proof fn lemma_byte_len_push(s: Seq<char>, c: char)
    ensures
        byte_len(s.push(c)) == byte_len(s) + encode_scalar(c as u32).len(),
{
    lemma_encode_concat(s, seq![c]);
    assert(s.push(c) =~= s + seq![c]);
    assert(seq![c].drop_first() =~= Seq::<char>::empty());
    assert(encode_utf8(seq![c]) == encode_scalar(c as u32) + encode_utf8(seq![c].drop_first()));
    assert(encode_utf8(Seq::<char>::empty()) =~= Seq::<u8>::empty());
    assert(encode_utf8(seq![c]) =~= encode_scalar(c as u32));
}

/// The byte offset of the start of line `target` (from 0): the offset of the first
/// character reached while `line` lines have been passed, scanning from character `k`;
/// the length of the text when the line is never reached.
pub open spec fn line_offset_from(s: Seq<char>, target: int, k: int, line: int) -> nat
    decreases s.len() - k,
{
    if k < 0 || k >= s.len() {
        byte_len(s)
    } else if line == target {
        byte_len(s.subrange(0, k))
    } else {
        line_offset_from(s, target, k + 1, if s[k] == '\n' { line + 1 } else { line })
    }
}

/// The byte offset of the start of line `target` (from 0), or the length of the
/// text when it has fewer lines.
pub open spec fn spec_line_to_offset(s: Seq<char>, target: int) -> nat {
    line_offset_from(s, target, 0, 0)
}

/// The number of UTF-8 bytes of `c`.
fn char_width(c: char) -> (w: usize)
    ensures
        w == encode_scalar(c as u32).len(),
{
    let u = c as u32;
    if u <= 0x7f {
        1
    } else if u <= 0x7ff {
        2
    } else if u <= 0xffff {
        3
    } else {
        4
    }
}

/// The byte offset of the start of line `target_line` (from 0).
pub fn line_to_offset(source: &str, target_line: usize) -> (r: usize)
    requires
        byte_len(source@) <= usize::MAX,
    ensures
        r == spec_line_to_offset(source@, target_line as int),
{
    let total = source.len();
    assert(total == byte_len(source@));
    let n = source.unicode_len();
    let mut k: usize = 0;
    let mut line: usize = 0;
    let mut offset: usize = 0;
    assert(source@.subrange(0, 0) =~= Seq::<char>::empty());
    while k < n
        invariant
            n == source@.len(),
            total == byte_len(source@),
            k <= n,
            line <= k,
            offset == byte_len(source@.subrange(0, k as int)),
            line_offset_from(source@, target_line as int, k as int, line as int) == spec_line_to_offset(source@, target_line as int),
        decreases n - k,
    {
        if line == target_line {
            return offset;
        }
        let c = source.get_char(k);
        proof {
            lemma_byte_len_push(source@.subrange(0, k as int), c);
            assert(source@.subrange(0, k + 1) =~= source@.subrange(0, k as int).push(c));
            lemma_encode_concat(source@.subrange(0, k + 1), source@.subrange(k + 1, n as int));
            assert(source@.subrange(0, k + 1) + source@.subrange(k + 1, n as int) =~= source@);
        }
        offset = offset + char_width(c);
        if c == '\n' {
            line = line + 1;
        }
        k = k + 1;
    }
    total
}

/// The label of a rendering error.
pub open spec fn spec_reason(info_kind: TemplateErrorKind, detail: Option<Seq<char>>, display: Seq<char>) -> Seq<char> {
    let d = |default: Seq<char>| match detail { Some(x) => x, None => default };
    match info_kind {
        TemplateErrorKind::UndefinedError => match detail {
            Some(x) => "undefined variable: "@ + x,
            None => "undefined variable"@,
        },
        TemplateErrorKind::SyntaxError => "syntax error: "@ + d("invalid syntax"@),
        TemplateErrorKind::TemplateNotFound => "template not found: "@ + d("unknown"@),
        TemplateErrorKind::InvalidOperation => "invalid operation: "@ + d("unknown"@),
        TemplateErrorKind::TooManyArguments => "too many arguments: "@ + d("unknown"@),
        TemplateErrorKind::MissingArgument => "missing argument: "@ + d("unknown"@),
        TemplateErrorKind::UnknownFilter => "unknown filter: "@ + d("unknown"@),
        TemplateErrorKind::UnknownFunction => "unknown function: "@ + d("unknown"@),
        TemplateErrorKind::UnknownMethod => "unknown method: "@ + d("unknown"@),
        TemplateErrorKind::BadInclude => "bad include: "@ + d("unknown"@),
        TemplateErrorKind::BadEscape => "bad escape sequence"@,
        TemplateErrorKind::CannotUnpack => "cannot unpack value"@,
        TemplateErrorKind::CannotDeserialize => "cannot deserialize value"@,
        TemplateErrorKind::WriteFailure => "write failure"@,
        TemplateErrorKind::Other => display,
    }
}

/// The advice given with a rendering error.
pub open spec fn spec_help(kind: TemplateErrorKind) -> Option<Seq<char>> {
    match kind {
        TemplateErrorKind::UndefinedError => Some("Make sure this variable is defined in:\n\u{2022} Your vars section in config.yml or config/vars.yml\n\u{2022} Environment variables (CIGEN_VAR_<NAME>)\n\u{2022} CLI arguments (--var name=value)"@),
        TemplateErrorKind::SyntaxError => Some("Check the MiniJinja template syntax at https://docs.rs/minijinja/"@),
        TemplateErrorKind::UnknownFilter => Some("Available filters: upper, lower, trim, and more. See MiniJinja docs."@),
        TemplateErrorKind::UnknownFunction => Some("Available functions: read(filename). Check if you're calling the right function."@),
        _ => None,
    }
}

/// Where a rendering error is: its byte range when it has one (empty when the
/// range is reversed), else the start of its line; nowhere when it has no line.
pub open spec fn spec_error_span(line: Option<usize>, range: Option<(usize, usize)>, source: Seq<char>) -> Option<ErrorSpan> {
    match line {
        Some(l) => match range {
            Some((start, end)) => Some(ErrorSpan { offset: start, length: if start <= end { (end - start) as usize } else { 0 } }),
            None => Some(ErrorSpan { offset: spec_line_to_offset(source, if l == 0 { 0 } else { l - 1 }) as usize, length: 0 }),
        },
        None => None,
    }
}

/// Appends the detail, or `default` when there is none.
fn detail_or(prefix: &str, detail: &Option<String>, default: &str) -> (r: String)
    ensures
        r@ == prefix@ + match *detail { Some(x) => x@, None => default@ },
{
    let mut s = to_owned_string(prefix);
    match detail {
        Some(x) => s.append(x.as_str()),
        None => s.append(default),
    }
    s
}

/// The place, label and advice of a rendering error.
pub fn extract_error_info(info: &ErrorInfo, source: &str) -> (r: (Option<ErrorSpan>, String, Option<String>))
    requires
        byte_len(source@) <= usize::MAX,
    ensures
        r.0 == spec_error_span(info.line, info.range, source@),
        r.1@ == spec_reason(info.kind, opt_str_view(info.detail), info.display@),
        opt_str_view(r.2) == spec_help(info.kind),
{
    let span = match info.line {
        Some(line) => {
            let line_idx = if line == 0 { 0 } else { line - 1 };
            match info.range {
                Some((start, end)) => Some(ErrorSpan { offset: start, length: if start <= end { end - start } else { 0 } }),
                None => Some(ErrorSpan { offset: line_to_offset(source, line_idx), length: 0 }),
            }
        },
        None => None,
    };
    let reason = match info.kind {
        TemplateErrorKind::UndefinedError => match &info.detail {
            Some(d) => {
                let mut s = to_owned_string("undefined variable: ");
                s.append(d.as_str());
                s
            },
            None => to_owned_string("undefined variable"),
        },
        TemplateErrorKind::SyntaxError => detail_or("syntax error: ", &info.detail, "invalid syntax"),
        TemplateErrorKind::TemplateNotFound => detail_or("template not found: ", &info.detail, "unknown"),
        TemplateErrorKind::InvalidOperation => detail_or("invalid operation: ", &info.detail, "unknown"),
        TemplateErrorKind::TooManyArguments => detail_or("too many arguments: ", &info.detail, "unknown"),
        TemplateErrorKind::MissingArgument => detail_or("missing argument: ", &info.detail, "unknown"),
        TemplateErrorKind::UnknownFilter => detail_or("unknown filter: ", &info.detail, "unknown"),
        TemplateErrorKind::UnknownFunction => detail_or("unknown function: ", &info.detail, "unknown"),
        TemplateErrorKind::UnknownMethod => detail_or("unknown method: ", &info.detail, "unknown"),
        TemplateErrorKind::BadInclude => detail_or("bad include: ", &info.detail, "unknown"),
        TemplateErrorKind::BadEscape => to_owned_string("bad escape sequence"),
        TemplateErrorKind::CannotUnpack => to_owned_string("cannot unpack value"),
        TemplateErrorKind::CannotDeserialize => to_owned_string("cannot deserialize value"),
        TemplateErrorKind::WriteFailure => to_owned_string("write failure"),
        TemplateErrorKind::Other => to_owned_string(info.display.as_str()),
    };
    let help = match info.kind {
        TemplateErrorKind::UndefinedError => Some(to_owned_string("Make sure this variable is defined in:\n\u{2022} Your vars section in config.yml or config/vars.yml\n\u{2022} Environment variables (CIGEN_VAR_<NAME>)\n\u{2022} CLI arguments (--var name=value)")),
        TemplateErrorKind::SyntaxError => Some(to_owned_string("Check the MiniJinja template syntax at https://docs.rs/minijinja/")),
        TemplateErrorKind::UnknownFilter => Some(to_owned_string("Available filters: upper, lower, trim, and more. See MiniJinja docs.")),
        TemplateErrorKind::UnknownFunction => Some(to_owned_string("Available functions: read(filename). Check if you're calling the right function.")),
        _ => None,
    };
    (span, reason, help)
}

#[verifier::external_type_specification]
#[verifier::external_body]
pub struct ExMinijinjaError(minijinja::Error);

/// The line that `minijinja::Error::line` gives for an error.
pub uninterp spec fn minijinja_error_line(e: minijinja::Error) -> Option<usize>;

/// The byte range that `minijinja::Error::range` gives for an error.
pub uninterp spec fn minijinja_error_range(e: minijinja::Error) -> Option<(usize, usize)>;

/// The kind that `minijinja::Error::kind` gives for an error, as one of ours.
pub uninterp spec fn minijinja_error_kind(e: minijinja::Error) -> TemplateErrorKind;

/// The detail that `minijinja::Error::detail` gives for an error.
pub uninterp spec fn minijinja_error_detail(e: minijinja::Error) -> Option<Seq<char>>;

/// The text that the `Display` implementation of `minijinja::Error` writes for an error.
pub uninterp spec fn minijinja_error_display(e: minijinja::Error) -> Seq<char>;

/// The line of a rendering error.
///
/// Trusted: calls `minijinja::Error::line`, which gives the line only when it is known (from 1);
/// the result is the line named for the error.
#[verifier::external_body]
fn error_line(e: &minijinja::Error) -> (r: Option<usize>)
    ensures
        r == minijinja_error_line(*e),
        r matches Some(l) ==> l > 0,
{
    e.line()
}

/// The byte range of a rendering error.
///
/// Trusted: calls `minijinja::Error::range` and takes its two ends; the result is
/// the range named for the error, and nothing more is claimed of it.
#[verifier::external_body]
fn error_range(e: &minijinja::Error) -> (r: Option<(usize, usize)>)
    ensures
        r == minijinja_error_range(*e),
{
    match e.range() {
        Some(range) => Some((range.start, range.end)),
        None => None,
    }
}

/// The kind of a rendering error.
///
/// Trusted: calls `minijinja::Error::kind` and tells the kinds apart; the result is
/// the kind named for the error, and nothing more is claimed of which kind it is.
#[verifier::external_body]
fn error_kind(e: &minijinja::Error) -> (r: TemplateErrorKind)
    ensures
        r == minijinja_error_kind(*e),
{
    match e.kind() {
        ErrorKind::UndefinedError => TemplateErrorKind::UndefinedError, ErrorKind::SyntaxError => TemplateErrorKind::SyntaxError,
        ErrorKind::TemplateNotFound => TemplateErrorKind::TemplateNotFound, ErrorKind::InvalidOperation => TemplateErrorKind::InvalidOperation,
        ErrorKind::TooManyArguments => TemplateErrorKind::TooManyArguments, ErrorKind::MissingArgument => TemplateErrorKind::MissingArgument,
        ErrorKind::UnknownFilter => TemplateErrorKind::UnknownFilter, ErrorKind::UnknownFunction => TemplateErrorKind::UnknownFunction,
        ErrorKind::UnknownMethod => TemplateErrorKind::UnknownMethod, ErrorKind::BadInclude => TemplateErrorKind::BadInclude,
        ErrorKind::BadEscape => TemplateErrorKind::BadEscape, ErrorKind::CannotUnpack => TemplateErrorKind::CannotUnpack,
        ErrorKind::CannotDeserialize => TemplateErrorKind::CannotDeserialize, ErrorKind::WriteFailure => TemplateErrorKind::WriteFailure,
        _ => TemplateErrorKind::Other,
    }
}

/// The detail of a rendering error.
///
/// Trusted: calls `minijinja::Error::detail`; the result is the detail named for
/// the error, and nothing more is claimed of the text.
#[verifier::external_body]
fn error_detail(e: &minijinja::Error) -> (r: Option<String>)
    ensures
        opt_str_view(r) == minijinja_error_detail(*e),
{
    match e.detail() {
        Some(d) => Some(d.to_string()),
        None => None,
    }
}

/// The display text of a rendering error.
///
/// Trusted: calls the `Display` implementation of `minijinja::Error`; the result is
/// the text named for the error, and nothing more is claimed of it.
#[verifier::external_body]
fn error_display(e: &minijinja::Error) -> (r: String)
    ensures
        r@ == minijinja_error_display(*e),
{
    e.to_string()
}

/// A template error: the source it is in, where, why, and what might help.
pub struct TemplateError {
    /// The name of the source file.
    pub source_name: String,
    /// The source text.
    pub source_text: String,
    pub span: Option<ErrorSpan>,
    pub reason: String,
    pub help: Option<String>,
    /// The rendering error itself.
    pub source: Option<minijinja::Error>,
}

impl TemplateError {
    /// The template error for a rendering error in `source` (read from `source_path`):
    /// its place, label and advice are those that `extract_error_info` gives for
    /// the line, range, kind, detail and text of the error.
    pub fn from_minijinja_error(error: minijinja::Error, source: String, source_path: &str) -> (r: Self)
        requires
            byte_len(source@) <= usize::MAX,
        ensures
            r.source_name@ == source_path@,
            r.source_text@ == source@,
            r.source == Some(error),
            r.span == spec_error_span(minijinja_error_line(error), minijinja_error_range(error), source@),
            r.reason@ == spec_reason(minijinja_error_kind(error), minijinja_error_detail(error), minijinja_error_display(error)),
            opt_str_view(r.help) == spec_help(minijinja_error_kind(error)),
    {
        let info = ErrorInfo {
            kind: error_kind(&error),
            detail: error_detail(&error),
            line: error_line(&error),
            range: error_range(&error),
            display: error_display(&error),
        };
        let (span, reason, help) = extract_error_info(&info, source.as_str());
        let r = TemplateError {
            source_name: to_owned_string(source_path),
            source_text: source,
            span,
            reason,
            help,
            source: Some(error),
        };
        r
    }
}

} // verus!
