//! Parser for configuration definition files (`rusefi_config.txt` format),
//! one line at a time.
//!
//! Each line is one of: a `#define`, a comment (`!` or `//`), an
//! `include_file` or `split_lines` directive, a struct start
//! (`struct NAME` / `struct_no_prefix NAME`), `end_struct`, a `bit` field, a
//! `custom` type, or a field (`TYPE NAME[DIMS];comment;ts_info`). The forms
//! are tried in that order and the first that matches wins.
use vstd::prelude::*;
use vstd::string::{StrSliceExecFns, StringExecFns};
use crate::codegen::model::{ConfigField, CustomTypeDef};
use crate::codegen::text::{
    chars_of, decimal_digits, first_index, lemma_first_index, parse_usize, spec_parse_usize,
    spec_trim, trim, usize_text,
};

verus! {

/// What `char::is_alphabetic` returns for `c` (Unicode `Alphabetic`).
pub uninterp spec fn alphabetic(c: char) -> bool;

/// What `char::is_alphanumeric` returns for `c` (Unicode `Alphabetic` or
/// `Numeric`).
pub uninterp spec fn alphanumeric(c: char) -> bool;

/// Calls `char::is_alphabetic`; the result is named `alphabetic`.
#[verifier::external_body]
fn is_alphabetic(c: char) -> (r: bool)
    ensures
        r == alphabetic(c),
{
    c.is_alphabetic()
}

/// Calls `char::is_alphanumeric`; the result is named `alphanumeric`.
#[verifier::external_body]
fn is_alphanumeric(c: char) -> (r: bool)
    ensures
        r == alphanumeric(c),
{
    c.is_alphanumeric()
}

/// ASCII control character (U+0000–U+001F, U+007F).
pub open spec fn is_ascii_control(c: char) -> bool {
    c < ' ' || c == '\u{7f}'
}

/// Character classes that end a scanned run.
#[derive(Clone, Copy, Debug, PartialEq, Eq, Structural)]
pub enum Stop {
    /// Anything but a space or tab.
    NotSpace,
    /// An ASCII control character.
    Control,
    /// Anything but a letter, digit or `_`.
    NotWord,
    /// Anything but a letter or `_`.
    NotAlpha,
    /// Anything but an ASCII digit.
    NotDigit,
    /// `;` or an ASCII control character.
    SemiOrControl,
    /// `]`.
    CloseBracket,
    /// `\r` or `\n`.
    LineEnd,
    /// `,`.
    Comma,
    /// `x` or `X`.
    Times,
    /// `\n`.
    Newline,
}

/// Whether `c` ends a run of class `k`.
pub open spec fn stops(k: Stop, c: char) -> bool {
    match k {
        Stop::NotSpace => !(c == ' ' || c == '\t'),
        Stop::Control => is_ascii_control(c),
        Stop::NotWord => !(alphanumeric(c) || c == '_'),
        Stop::NotAlpha => !(alphabetic(c) || c == '_'),
        Stop::NotDigit => !('0' <= c && c <= '9'),
        Stop::SemiOrControl => c == ';' || is_ascii_control(c),
        Stop::CloseBracket => c == ']',
        Stop::LineEnd => c == '\r' || c == '\n',
        Stop::Comma => c == ',',
        Stop::Times => c == 'x' || c == 'X',
        Stop::Newline => c == '\n',
    }
}

/// The predicate of class `k`.
pub open spec fn stop_pred(k: Stop) -> spec_fn(char) -> bool {
    |c: char| stops(k, c)
}

/// Length of the run at the start of `s` before the first character of
/// class `k`.
pub open spec fn run(s: Seq<char>, k: Stop) -> nat {
    first_index(s, stop_pred(k))
}

fn stops_exec(k: Stop, c: char) -> (r: bool)
    ensures
        r == stops(k, c),
{
    match k {
        Stop::NotSpace => !(c == ' ' || c == '\t'),
        Stop::Control => c < ' ' || c == '\u{7f}',
        Stop::NotWord => !(is_alphanumeric(c) || c == '_'),
        Stop::NotAlpha => !(is_alphabetic(c) || c == '_'),
        Stop::NotDigit => !('0' <= c && c <= '9'),
        Stop::SemiOrControl => c == ';' || c < ' ' || c == '\u{7f}',
        Stop::CloseBracket => c == ']',
        Stop::LineEnd => c == '\r' || c == '\n',
        Stop::Comma => c == ',',
        Stop::Times => c == 'x' || c == 'X',
        Stop::Newline => c == '\n',
    }
}

/// Length of the run of `v[from..]` before the first character of class `k`.
fn scan(v: &[char], from: usize, k: Stop) -> (r: usize)
    requires
        from <= v@.len(),
    ensures
        r == run(v@.skip(from as int), k),
        from + r <= v@.len(),
        from + r <= v.len(),
{
    let ghost t = v@.skip(from as int);
    let mut i = from;
    while i < v.len() && !stops_exec(k, v[i])
        invariant
            from <= i <= v@.len(),
            t == v@.skip(from as int),
            forall|j: int| from <= j < i ==> !stops(k, #[trigger] v@[j]),
        decreases v@.len() - i,
    {
        i += 1;
    }
    proof {
        assert forall|j: int| 0 <= j < i - from implies !stop_pred(k)(#[trigger] t[j]) by {
            assert(t[j] == v@[from + j]);
        }
        if i < v.len() {
            assert(t[i - from] == v@[i as int]);
        }
        lemma_first_index(t, stop_pred(k), i - from);
    }
    i - from
}

/// `s` begins with `t`.
pub open spec fn has_prefix(s: Seq<char>, t: Seq<char>) -> bool {
    t.len() <= s.len() && s.take(t.len() as int) == t
}

/// Whether `v[from..]` begins with the literal `t`.
pub(crate) fn prefix_at(v: &[char], from: usize, t: &str) -> (r: bool)
    requires
        from <= v@.len(),
    ensures
        r == has_prefix(v@.skip(from as int), t@),
{
    let p = chars_of(t);
    if p.len() > v.len() - from {
        return false;
    }
    let mut i: usize = 0;
    while i < p.len()
        invariant
            p@ == t@,
            v@.len() == v.len(),
            from + p@.len() <= v@.len(),
            i <= p@.len(),
            forall|j: int| 0 <= j < i ==> v@[from + j] == p@[j],
        decreases p@.len() - i,
    {
        if v[from + i] != p[i] {
            assert(v@.skip(from as int).take(p@.len() as int)[i as int] != p@[i as int]);
            return false;
        }
        i += 1;
    }
    assert(v@.skip(from as int).take(p@.len() as int) =~= p@);
    true
}

/// Length of the identifier at the start of `s`: either `@@NAME@@` (`NAME`
/// of letters, digits and `_`) or a letter or `_` followed by letters,
/// digits and `_`. The identifier's text is what it spans.
pub open spec fn identifier_len(s: Seq<char>) -> Option<nat> {
    let k = run(s.skip(2), Stop::NotWord);
    if s.len() >= 2 && s[0] == '@' && s[1] == '@' && k >= 1 && 2 + k + 2 <= s.len() && s[2 + k as int]
        == '@' && s[2 + k as int + 1] == '@' {
        Some(k + 4)
    } else {
        let a = run(s, Stop::NotAlpha);
        if a == 0 {
            None
        } else {
            Some(a + run(s.skip(a as int), Stop::NotWord))
        }
    }
}

/// Length of the identifier at `v[from..]`.
fn identifier_at(v: &[char], from: usize) -> (r: Option<usize>)
    requires
        from <= v@.len(),
    ensures
        match identifier_len(v@.skip(from as int)) {
            Some(m) => r == Some(m as usize) && from + m <= v@.len(),
            None => r is None,
        },
{
    let ghost s = v@.skip(from as int);
    let n = v.len();
    if n - from >= 2 && v[from] == '@' && v[from + 1] == '@' {
        let k = scan(v, from + 2, Stop::NotWord);
        assert(s.skip(2) =~= v@.skip(from + 2));
        if k >= 1 && 2 <= n - (from + 2 + k) && v[from + 2 + k] == '@' && v[from + 2 + k + 1] == '@' {
            return Some(k + 4);
        }
    } else {
        proof {
            if s.len() >= 2 {
                assert(s[0] == v@[from as int]);
                assert(s[1] == v@[from + 1]);
            }
        }
    }
    let a = scan(v, from, Stop::NotAlpha);
    if a == 0 {
        return None;
    }
    let b = scan(v, from + a, Stop::NotWord);
    assert(s.skip(a as int) =~= v@.skip(from + a));
    Some(a + b)
}

/// What `opt(preceded(space1, take_while(not control)))` takes from the
/// start of `s`: after at least one space or tab, the run up to an ASCII
/// control character; `None` when no space follows.
pub open spec fn opt_tail(s: Seq<char>) -> Option<Seq<char>> {
    let sp = run(s, Stop::NotSpace);
    if sp == 0 {
        None
    } else {
        let t = s.skip(sp as int);
        Some(t.take(run(t, Stop::Control) as int))
    }
}

fn opt_tail_at<'a>(line: &'a str, v: &[char], from: usize) -> (r: Option<&'a str>)
    requires
        v@ == line@,
        from <= v@.len(),
    ensures
        match opt_tail(v@.skip(from as int)) {
            Some(t) => r matches Some(x) && x@ == t,
            None => r is None,
        },
{
    let sp = scan(v, from, Stop::NotSpace);
    if sp == 0 {
        return None;
    }
    let n = scan(v, from + sp, Stop::Control);
    let ghost s = v@.skip(from as int);
    assert(s.skip(sp as int) =~= v@.skip(from + sp));
    let x = line.substring_char(from + sp, from + sp + n);
    assert(x@ =~= s.skip(sp as int).take(n as int));
    Some(x)
}

/// What `not_line_ending` takes from the start of `s`: everything before the
/// first `\n` or `\r\n`; `None` when a `\r` is not followed by `\n`.
pub open spec fn line_rest(s: Seq<char>) -> Option<Seq<char>> {
    let i = run(s, Stop::LineEnd);
    if i == s.len() || s[i as int] == '\n' || (i + 1 < s.len() && s[i as int + 1] == '\n') {
        Some(s.take(i as int))
    } else {
        None
    }
}

fn line_rest_at<'a>(line: &'a str, v: &[char], from: usize) -> (r: Option<&'a str>)
    requires
        v@ == line@,
        from <= v@.len(),
    ensures
        match line_rest(v@.skip(from as int)) {
            Some(t) => r matches Some(x) && x@ == t,
            None => r is None,
        },
{
    let i = scan(v, from, Stop::LineEnd);
    let ghost s = v@.skip(from as int);
    let e = from + i;
    if e == v.len() || v[e] == '\n' || (e + 1 < v.len() && v[e + 1] == '\n') {
        let x = line.substring_char(from, e);
        assert(x@ =~= s.take(i as int));
        Some(x)
    } else {
        None
    }
}

/// A parsed configuration line.
#[derive(Debug, Clone, PartialEq)]
pub enum ConfigLine {
    /// Blank line.
    Empty,
    /// Comment text (after `!` or `//`).
    Comment(String),
    /// `#define NAME VALUE`.
    Define(String, String),
    /// `include_file PATH`.
    Include(String),
    /// `split_lines TEMPLATE`.
    SplitLines(String),
    /// Start of a struct.
    StructStart {
        /// Struct name.
        name: String,
        /// Field names get the struct prefix (`struct`, not
        /// `struct_no_prefix`).
        with_prefix: bool,
        /// Text after the name.
        comment: Option<String>,
    },
    /// `end_struct`.
    StructEnd,
    /// `bit NAME[,TRUE,FALSE][;comment]`.
    BitField {
        /// Bit name.
        name: String,
        /// Label of the set state.
        true_label: Option<String>,
        /// Label of the clear state.
        false_label: Option<String>,
        /// Text after `;`.
        comment: Option<String>,
    },
    /// `custom NAME SIZE TS_LINE`.
    CustomType(CustomTypeDef),
    /// A field declaration.
    Field(ConfigField),
}

/// The pieces of `s` between characters of class `k` (as `str::split`).
pub open spec fn pieces(s: Seq<char>, k: Stop) -> Seq<Seq<char>>
    decreases s.len(),
{
    let i = run(s, k);
    if i >= s.len() {
        seq![s]
    } else {
        seq![s.take(i as int)] + pieces(s.skip(i + 1 as int), k)
    }
}

/// `s` without leading and trailing `"` characters (as `trim_matches('"')`).
pub open spec fn strip_quotes(s: Seq<char>) -> Seq<char>
    decreases s.len(),
{
    if s.len() > 0 && s[0] == '"' {
        strip_quotes(s.drop_first())
    } else if s.len() > 0 && s.last() == '"' {
        strip_quotes(s.drop_last())
    } else {
        s
    }
}

/// The pieces of `line[from..to]` between characters of class `k`.
fn split_at<'a>(line: &'a str, v: &[char], from: usize, to: usize, k: Stop) -> (r: Vec<&'a str>)
    requires
        v@ == line@,
        from <= to <= v@.len(),
    ensures
        r@.len() == pieces(v@.subrange(from as int, to as int), k).len(),
        forall|j: int|
            0 <= j < r@.len() ==> (#[trigger] r@[j])@ == pieces(
                v@.subrange(from as int, to as int),
                k,
            )[j],
    decreases to - from,
{
    let ghost s = v@.subrange(from as int, to as int);
    let sub = line.substring_char(from, to);
    let w = chars_of(sub);
    let i = scan(w.as_slice(), 0, k);
    assert(w@.skip(0) =~= s);
    if i >= w.len() {
        let mut r = Vec::new();
        r.push(sub);
        return r;
    }
    let first = line.substring_char(from, from + i);
    assert(first@ =~= s.take(i as int));
    let rest = split_at(line, v, from + i + 1, to, k);
    assert(v@.subrange(from + i + 1, to as int) =~= s.skip(i + 1));
    let mut r = Vec::new();
    r.push(first);
    let mut j: usize = 0;
    while j < rest.len()
        invariant
            j <= rest@.len(),
            r@.len() == j + 1,
            r@[0]@ == s.take(i as int),
            forall|q: int| 0 <= q < j ==> (#[trigger] r@[q + 1])@ == rest@[q]@,
        decreases rest@.len() - j,
    {
        r.push(rest[j]);
        j += 1;
    }
    proof {
        let ps = pieces(s, k);
        assert(ps == seq![s.take(i as int)] + pieces(s.skip(i + 1), k));
        assert forall|q: int| 0 <= q < r@.len() implies (#[trigger] r@[q])@ == ps[q] by {
            if q > 0 {
                assert(r@[(q - 1) + 1] == r@[q]);
            }
        }
    }
    r
}

/// `s` without leading and trailing `"` characters.
fn strip_quotes_exec<'a>(x: &'a str) -> (r: &'a str)
    ensures
        r@ == strip_quotes(x@),
{
    let v = chars_of(x);
    let mut a: usize = 0;
    let mut b: usize = v.len();
    assert(v@.subrange(0, v@.len() as int) =~= v@);
    while a < b && (v[a] == '"' || v[b - 1] == '"')
        invariant
            v@ == x@,
            a <= b <= v@.len(),
            strip_quotes(v@.subrange(a as int, b as int)) == strip_quotes(x@),
        decreases b - a,
    {
        let ghost t = v@.subrange(a as int, b as int);
        if v[a] == '"' {
            assert(t.drop_first() =~= v@.subrange(a + 1, b as int));
            a += 1;
        } else {
            assert(t.drop_last() =~= v@.subrange(a as int, b - 1));
            b -= 1;
        }
    }
    x.substring_char(a, b)
}

/// The `#define` line's name and value.
pub open spec fn spec_define(s: Seq<char>) -> Option<(Seq<char>, Seq<char>)> {
    let a = s.skip("#define"@.len() as int);
    let sp = run(a, Stop::NotSpace);
    let b = a.skip(sp as int);
    if !has_prefix(s, "#define"@) || sp == 0 {
        None
    } else {
        match identifier_len(b) {
            None => None,
            Some(n) => Some(
                (
                    b.take(n as int),
                    match opt_tail(b.skip(n as int)) {
                        Some(t) => spec_trim(t),
                        None => Seq::empty(),
                    },
                ),
            ),
        }
    }
}

/// Parse `#define NAME [VALUE]` (the value trimmed, empty when absent).
pub fn parse_define(line: &str) -> (r: Option<ConfigLine>)
    ensures
        match spec_define(line@) {
            None => r is None,
            Some((name, value)) => r matches Some(ConfigLine::Define(n, v)) && n@ == name && v@
                == value,
        },
{
    let v = chars_of(line);
    let kw = "#define";
    if !prefix_at(v.as_slice(), 0, kw) {
        assert(v@.skip(0) =~= v@);
        return None;
    }
    assert(v@.skip(0) =~= v@);
    let k = kw.unicode_len();
    let sp = scan(v.as_slice(), k, Stop::NotSpace);
    if sp == 0 {
        return None;
    }
    let at = k + sp;
    assert(v@.skip(k as int).skip(sp as int) =~= v@.skip(at as int));
    let n = match identifier_at(v.as_slice(), at) {
        Some(n) => n,
        None => return None,
    };
    let name = line.substring_char(at, at + n);
    assert(name@ =~= v@.skip(at as int).take(n as int));
    assert(v@.skip(at as int).skip(n as int) =~= v@.skip(at + n));
    let value = match opt_tail_at(line, v.as_slice(), at + n) {
        Some(t) => trim(t).to_owned(),
        None => String::new(),
    };
    Some(ConfigLine::Define(name.to_owned(), value))
}

/// The text of a comment line.
pub open spec fn spec_comment(s: Seq<char>) -> Option<Seq<char>> {
    if has_prefix(s, "!"@) {
        line_rest(s.skip("!"@.len() as int))
    } else if has_prefix(s, "//"@) {
        line_rest(s.skip("//"@.len() as int))
    } else {
        None
    }
}

/// Parse a comment line (starting with `!` or `//`); `#` lines are not
/// comments, they may be `#define`s.
pub fn parse_comment(line: &str) -> (r: Option<ConfigLine>)
    ensures
        match spec_comment(line@) {
            None => r is None,
            Some(text) => r matches Some(ConfigLine::Comment(c)) && c@ == text,
        },
{
    let v = chars_of(line);
    assert(v@.skip(0) =~= v@);
    let k = if prefix_at(v.as_slice(), 0, "!") {
        "!".unicode_len()
    } else if prefix_at(v.as_slice(), 0, "//") {
        "//".unicode_len()
    } else {
        return None;
    };
    match line_rest_at(line, v.as_slice(), k) {
        Some(t) => Some(ConfigLine::Comment(t.to_owned())),
        None => None,
    }
}

/// The argument of a directive `kw` followed by `min_space` or more spaces:
/// the rest up to an ASCII control character, trimmed.
pub open spec fn spec_directive(s: Seq<char>, kw: Seq<char>, min_space: nat) -> Option<Seq<char>> {
    let a = s.skip(kw.len() as int);
    let sp = run(a, Stop::NotSpace);
    let b = a.skip(sp as int);
    if has_prefix(s, kw) && sp >= min_space {
        Some(spec_trim(b.take(run(b, Stop::Control) as int)))
    } else {
        None
    }
}

fn directive_arg<'a>(line: &'a str, v: &[char], kw: &str, min_space: usize) -> (r: Option<&'a str>)
    requires
        v@ == line@,
    ensures
        match spec_directive(line@, kw@, min_space as nat) {
            None => r is None,
            Some(t) => r matches Some(x) && x@ == t,
        },
{
    assert(v@.skip(0) =~= v@);
    if !prefix_at(v, 0, kw) {
        return None;
    }
    let k = kw.unicode_len();
    let sp = scan(v, k, Stop::NotSpace);
    if sp < min_space {
        return None;
    }
    let at = k + sp;
    assert(v@.skip(k as int).skip(sp as int) =~= v@.skip(at as int));
    let n = scan(v, at, Stop::Control);
    let t = line.substring_char(at, at + n);
    assert(t@ =~= v@.skip(at as int).take(n as int));
    Some(trim(t))
}

/// Parse `include_file PATH`.
pub fn parse_include(line: &str) -> (r: Option<ConfigLine>)
    ensures
        match spec_directive(line@, "include_file"@, 1) {
            None => r is None,
            Some(t) => r matches Some(ConfigLine::Include(p)) && p@ == t,
        },
{
    let v = chars_of(line);
    match directive_arg(line, v.as_slice(), "include_file", 1) {
        Some(t) => Some(ConfigLine::Include(t.to_owned())),
        None => None,
    }
}

/// Parse `split_lines TEMPLATE` (the space is optional).
pub fn parse_split_lines(line: &str) -> (r: Option<ConfigLine>)
    ensures
        match spec_directive(line@, "split_lines"@, 0) {
            None => r is None,
            Some(t) => r matches Some(ConfigLine::SplitLines(p)) && p@ == t,
        },
{
    let v = chars_of(line);
    match directive_arg(line, v.as_slice(), "split_lines", 0) {
        Some(t) => Some(ConfigLine::SplitLines(t.to_owned())),
        None => None,
    }
}

/// The name and comment of a struct start introduced by `kw`.
pub open spec fn spec_struct(s: Seq<char>, kw: Seq<char>) -> Option<(Seq<char>, Option<Seq<char>>)> {
    let b = s.skip(kw.len() as int);
    if !has_prefix(s, kw) {
        None
    } else {
        match identifier_len(b) {
            None => None,
            Some(n) => Some(
                (
                    b.take(n as int),
                    match opt_tail(b.skip(n as int)) {
                        Some(t) => Some(spec_trim(t)),
                        None => None,
                    },
                ),
            ),
        }
    }
}

fn struct_start(line: &str, kw: &str, with_prefix: bool) -> (r: Option<ConfigLine>)
    ensures
        match spec_struct(line@, kw@) {
            None => r is None,
            Some((name, comment)) => r matches Some(
                ConfigLine::StructStart { name: n, with_prefix: w, comment: c },
            ) && n@ == name && w == with_prefix && match comment {
                Some(t) => c matches Some(x) && x@ == t,
                None => c is None,
            },
        },
{
    let v = chars_of(line);
    assert(v@.skip(0) =~= v@);
    if !prefix_at(v.as_slice(), 0, kw) {
        return None;
    }
    let k = kw.unicode_len();
    let n = match identifier_at(v.as_slice(), k) {
        Some(n) => n,
        None => return None,
    };
    assert(k + n <= v.len());
    let name = line.substring_char(k, k + n);
    assert(name@ =~= v@.skip(k as int).take(n as int));
    assert(v@.skip(k as int).skip(n as int) =~= v@.skip(k + n));
    let comment = match opt_tail_at(line, v.as_slice(), k + n) {
        Some(t) => Some(trim(t).to_owned()),
        None => None,
    };
    Some(ConfigLine::StructStart { name: name.to_owned(), with_prefix, comment })
}

/// Parse `struct NAME [comment]`.
pub fn parse_struct(line: &str) -> (r: Option<ConfigLine>)
    ensures
        match spec_struct(line@, "struct "@) {
            None => r is None,
            Some((name, comment)) => r matches Some(
                ConfigLine::StructStart { name: n, with_prefix: w, comment: c },
            ) && n@ == name && w && match comment {
                Some(t) => c matches Some(x) && x@ == t,
                None => c is None,
            },
        },
{
    struct_start(line, "struct ", true)
}

/// Parse `struct_no_prefix NAME [comment]`.
pub fn parse_struct_no_prefix(line: &str) -> (r: Option<ConfigLine>)
    ensures
        match spec_struct(line@, "struct_no_prefix "@) {
            None => r is None,
            Some((name, comment)) => r matches Some(
                ConfigLine::StructStart { name: n, with_prefix: w, comment: c },
            ) && n@ == name && !w && match comment {
                Some(t) => c matches Some(x) && x@ == t,
                None => c is None,
            },
        },
{
    struct_start(line, "struct_no_prefix ", false)
}

/// Parse `end_struct`.
pub fn parse_struct_end(line: &str) -> (r: Option<ConfigLine>)
    ensures
        has_prefix(line@, "end_struct"@) ==> r == Some(ConfigLine::StructEnd),
        !has_prefix(line@, "end_struct"@) ==> r is None,
{
    let v = chars_of(line);
    assert(v@.skip(0) =~= v@);
    if prefix_at(v.as_slice(), 0, "end_struct") {
        Some(ConfigLine::StructEnd)
    } else {
        None
    }
}

/// `s` ends with `t`.
pub open spec fn has_suffix(s: Seq<char>, t: Seq<char>) -> bool {
    t.len() <= s.len() && s.skip(s.len() - t.len()) == t
}

/// Name, labels and comment of a `bit` line.
pub open spec fn spec_bit(s: Seq<char>) -> Option<
    (Seq<char>, Option<Seq<char>>, Option<Seq<char>>, Option<Seq<char>>),
> {
    let a = s.skip("bit"@.len() as int);
    let sp = run(a, Stop::NotSpace);
    let b = a.skip(sp as int);
    let m = run(b, Stop::SemiOrControl);
    let after = b.skip(m as int);
    let parts = pieces(spec_trim(b.take(m as int)), Stop::Comma);
    if !has_prefix(s, "bit"@) || sp == 0 {
        None
    } else {
        Some(
            (
                spec_trim(parts[0]),
                if parts.len() > 1 {
                    Some(strip_quotes(spec_trim(parts[1])))
                } else {
                    None
                },
                if parts.len() > 2 {
                    Some(strip_quotes(spec_trim(parts[2])))
                } else {
                    None
                },
                if after.len() > 0 && after[0] == ';' {
                    line_rest(after.drop_first())
                } else {
                    None
                },
            ),
        )
    }
}

/// `o` holds the text `t` (or is empty when `t` is).
pub open spec fn opt_text(o: Option<String>, t: Option<Seq<char>>) -> bool {
    match t {
        Some(x) => o matches Some(y) && y@ == x,
        None => o is None,
    }
}

/// `r` is what parsing the `bit` line `s` gives.
pub open spec fn bit_parse(s: Seq<char>, r: Option<ConfigLine>) -> bool {
    match spec_bit(s) {
        None => r is None,
        Some((name, t, f, c)) => r matches Some(
            ConfigLine::BitField { name: n, true_label: tl, false_label: fl, comment: cm },
        ) && n@ == name && opt_text(tl, t) && opt_text(fl, f) && opt_text(cm, c),
    }
}

fn label(parts: &Vec<&str>, i: usize) -> (r: Option<String>)
    ensures
        i < parts@.len() ==> (r matches Some(x) && x@ == strip_quotes(spec_trim(parts@[i as int]@))),
        i >= parts@.len() ==> r is None,
{
    if i < parts.len() {
        Some(strip_quotes_exec(trim(parts[i])).to_owned())
    } else {
        None
    }
}

/// Parse `bit NAME[,TRUE,FALSE][;comment]`.
pub fn parse_bit(line: &str) -> (r: Option<ConfigLine>)
    ensures
        bit_parse(line@, r),
{
    let v = chars_of(line);
    assert(v@.skip(0) =~= v@);
    if !prefix_at(v.as_slice(), 0, "bit") {
        return None;
    }
    let k = "bit".unicode_len();
    let sp = scan(v.as_slice(), k, Stop::NotSpace);
    if sp == 0 {
        return None;
    }
    let at = k + sp;
    assert(v@.skip(k as int).skip(sp as int) =~= v@.skip(at as int));
    let m = scan(v.as_slice(), at, Stop::SemiOrControl);
    let raw = line.substring_char(at, at + m);
    assert(raw@ =~= v@.skip(at as int).take(m as int));
    let spec_text = trim(raw);
    let sv = chars_of(spec_text);
    let parts = split_at(spec_text, sv.as_slice(), 0, sv.len(), Stop::Comma);
    assert(sv@.subrange(0, sv@.len() as int) =~= spec_text@);
    let end = at + m;
    assert(v@.skip(at as int).skip(m as int) =~= v@.skip(end as int));
    let comment = if end < v.len() && v[end] == ';' {
        assert(v@.skip(end as int).drop_first() =~= v@.skip(end + 1));
        match line_rest_at(line, v.as_slice(), end + 1) {
            Some(t) => Some(t.to_owned()),
            None => None,
        }
    } else {
        None
    };
    let name = trim(parts[0]).to_owned();
    let true_label = label(&parts, 1);
    let false_label = label(&parts, 2);
    Some(ConfigLine::BitField { name, true_label, false_label, comment })
}

/// Name, size and TunerStudio line of a `custom` line; the size is 1 when
/// its digits do not fit a `usize`.
pub open spec fn spec_custom(s: Seq<char>) -> Option<(Seq<char>, usize, Seq<char>)> {
    let a = s.skip("custom"@.len() as int);
    let sp1 = run(a, Stop::NotSpace);
    let b = a.skip(sp1 as int);
    if !has_prefix(s, "custom"@) || sp1 == 0 {
        None
    } else {
        match identifier_len(b) {
            None => None,
            Some(n) => {
                let c = b.skip(n as int);
                let sp2 = run(c, Stop::NotSpace);
                let d = c.skip(sp2 as int);
                let dg = run(d, Stop::NotDigit);
                let e = d.skip(dg as int);
                let sp3 = run(e, Stop::NotSpace);
                let f = e.skip(sp3 as int);
                if sp2 == 0 || dg == 0 || sp3 == 0 {
                    None
                } else {
                    Some(
                        (
                            b.take(n as int),
                            match spec_parse_usize(d.take(dg as int)) {
                                Some(x) => x,
                                None => 1,
                            },
                            spec_trim(f.take(run(f, Stop::Control) as int)),
                        ),
                    )
                }
            },
        }
    }
}

/// `r` is what parsing the `custom` line `s` gives.
pub open spec fn custom_parse(s: Seq<char>, r: Option<ConfigLine>) -> bool {
    match spec_custom(s) {
        None => r is None,
        Some((name, size, ts)) => r matches Some(ConfigLine::CustomType(ct)) && ct.name@ == name
            && ct.size == size && ct.ts_line@ == ts,
    }
}

/// Parse `custom NAME SIZE TS_LINE`.
#[verifier::rlimit(100)]
#[verifier::spinoff_prover]
pub fn parse_custom(line: &str) -> (r: Option<ConfigLine>)
    ensures
        custom_parse(line@, r),
{
    let v = chars_of(line);
    let total = v.len();
    assert(v@.skip(0) =~= v@);
    if !prefix_at(v.as_slice(), 0, "custom") {
        return None;
    }
    let k = "custom".unicode_len();
    let sp1 = scan(v.as_slice(), k, Stop::NotSpace);
    if sp1 == 0 {
        return None;
    }
    let at = k + sp1;
    assert(v@.skip(k as int).skip(sp1 as int) =~= v@.skip(at as int));
    let n = match identifier_at(v.as_slice(), at) {
        Some(n) => n,
        None => return None,
    };
    assert(at + n <= total);
    let c = at + n;
    assert(v@.skip(at as int).skip(n as int) =~= v@.skip(c as int));
    let sp2 = scan(v.as_slice(), c, Stop::NotSpace);
    let d = c + sp2;
    assert(v@.skip(c as int).skip(sp2 as int) =~= v@.skip(d as int));
    let dg = scan(v.as_slice(), d, Stop::NotDigit);
    let e = d + dg;
    assert(v@.skip(d as int).skip(dg as int) =~= v@.skip(e as int));
    let sp3 = scan(v.as_slice(), e, Stop::NotSpace);
    let f = e + sp3;
    assert(v@.skip(e as int).skip(sp3 as int) =~= v@.skip(f as int));
    if sp2 == 0 || dg == 0 || sp3 == 0 {
        return None;
    }
    let name = line.substring_char(at, c);
    assert(name@ =~= v@.skip(at as int).take(n as int));
    let digits = line.substring_char(d, e);
    assert(digits@ =~= v@.skip(d as int).take(dg as int));
    let size = match parse_usize(digits) {
        Some(x) => x,
        None => 1,
    };
    let tl = scan(v.as_slice(), f, Stop::Control);
    let ts = line.substring_char(f, f + tl);
    assert(ts@ =~= v@.skip(f as int).take(tl as int));
    Some(
        ConfigLine::CustomType(
            CustomTypeDef { name: name.to_owned(), size, ts_line: trim(ts).to_owned() },
        ),
    )
}

/// Dimensions of an array spec's inner text: `N`, `N x M`, … (split on `x`
/// or `X`, each piece parsed as a `usize`, 0 when it is not a number, as for
/// a size given by a variable), and whether it ends in ` iterate`.
pub open spec fn spec_dims(inner: Seq<char>) -> (Seq<usize>, bool) {
    let t = spec_trim(inner);
    let it = has_suffix(t, " iterate"@);
    let size_part = if it {
        spec_trim(t.take(t.len() - " iterate"@.len()))
    } else {
        t
    };
    (
        pieces(size_part, Stop::Times).map_values(
            |p: Seq<char>|
                match spec_parse_usize(spec_trim(p)) {
                    Some(x) => x,
                    None => 0,
                },
        ),
        it,
    )
}

/// An array spec `[...]` at the start of `s`: its length, dimensions and
/// iterate flag.
pub open spec fn spec_array(s: Seq<char>) -> Option<(nat, Seq<usize>, bool)> {
    let t = s.drop_first();
    let i = run(t, Stop::CloseBracket);
    if s.len() > 0 && s[0] == '[' && i < t.len() {
        Some((i + 2, spec_dims(t.take(i as int)).0, spec_dims(t.take(i as int)).1))
    } else {
        None
    }
}

fn dims_of(inner: &str) -> (r: (Vec<usize>, bool))
    ensures
        r.0@ == spec_dims(inner@).0,
        r.1 == spec_dims(inner@).1,
{
    let t = trim(inner);
    let tv = chars_of(t);
    let lit = " iterate";
    let l = lit.unicode_len();
    let it = l <= tv.len() && prefix_at(tv.as_slice(), tv.len() - l, lit);
    proof {
        if l <= tv@.len() {
            let x = tv@.skip(tv@.len() - l);
            assert(x =~= t@.skip(t@.len() - lit@.len()));
            assert(x.take(l as int) =~= x);
            assert(has_prefix(x, lit@) == has_suffix(t@, lit@));
        }
    }
    let size_part = if it {
        assert(t@.subrange(0, t@.len() - l) =~= t@.take(t@.len() - lit@.len()));
        trim(t.substring_char(0, tv.len() - l))
    } else {
        t
    };
    let sv = chars_of(size_part);
    let parts = split_at(size_part, sv.as_slice(), 0, sv.len(), Stop::Times);
    assert(sv@.subrange(0, sv@.len() as int) =~= size_part@);
    let ghost ps = pieces(size_part@, Stop::Times);
    let ghost want = spec_dims(inner@).0;
    let mut dims: Vec<usize> = Vec::new();
    let mut j: usize = 0;
    while j < parts.len()
        invariant
            j <= parts@.len(),
            parts@.len() == ps.len(),
            forall|q: int| 0 <= q < parts@.len() ==> (#[trigger] parts@[q])@ == ps[q],
            want == ps.map_values(
                |p: Seq<char>|
                    match spec_parse_usize(spec_trim(p)) {
                        Some(x) => x,
                        None => 0,
                    },
            ),
            dims@ == want.take(j as int),
        decreases parts@.len() - j,
    {
        let d = match parse_usize(trim(parts[j])) {
            Some(x) => x,
            None => 0,
        };
        dims.push(d);
        assert(dims@ =~= want.take(j + 1));
        j += 1;
    }
    assert(dims@ =~= want);
    (dims, it)
}

/// The array spec at `v[from..]`: its length, dimensions and iterate flag.
fn array_at(line: &str, v: &[char], from: usize) -> (r: Option<(usize, Vec<usize>, bool)>)
    requires
        v@ == line@,
        from <= v@.len(),
    ensures
        match spec_array(v@.skip(from as int)) {
            None => r is None,
            Some((n, d, it)) => r matches Some((m, e, jt)) && m == n && e@ == d && jt == it && from
                + m <= v@.len(),
        },
{
    let ghost s = v@.skip(from as int);
    if from >= v.len() || v[from] != '[' {
        return None;
    }
    let i = scan(v, from + 1, Stop::CloseBracket);
    assert(s.drop_first() =~= v@.skip(from + 1));
    if from + 1 + i >= v.len() {
        return None;
    }
    let inner = line.substring_char(from + 1, from + 1 + i);
    assert(inner@ =~= s.drop_first().take(i as int));
    let (dims, it) = dims_of(inner);
    Some((i + 2, dims, it))
}

/// What follows an optional array spec at the start of `a`.
pub open spec fn after_array(a: Seq<char>) -> Seq<char> {
    match spec_array(a) {
        Some((k, _, _)) => a.skip(k as int),
        None => a,
    }
}

/// The comment (`;` then up to the next `;` or control character, trimmed)
/// and TunerStudio text (`;` then up to a control character, trimmed, when
/// not empty) at the start of `c`.
pub open spec fn spec_field_tail(c: Seq<char>) -> (Option<Seq<char>>, Option<Seq<char>>) {
    let has_comment = c.len() > 0 && c[0] == ';';
    let ct = c.drop_first();
    let cm = run(ct, Stop::SemiOrControl);
    let d = if has_comment {
        ct.skip(cm as int)
    } else {
        c
    };
    let dt = d.drop_first();
    let ts = spec_trim(dt.take(run(dt, Stop::Control) as int));
    (
        if has_comment {
            Some(spec_trim(ct.take(cm as int)))
        } else {
            None
        },
        if d.len() > 0 && d[0] == ';' && ts.len() > 0 {
            Some(ts)
        } else {
            None
        },
    )
}

/// Parts of a field line: C type, name, array dimensions with the iterate
/// flag (the spec after the type wins over one after the name), comment and
/// TunerStudio text.
pub open spec fn spec_field(s: Seq<char>) -> Option<
    (Seq<char>, Seq<char>, Option<(Seq<usize>, bool)>, Option<Seq<char>>, Option<Seq<char>>),
> {
    match identifier_len(s) {
        None => None,
        Some(n1) => {
            let a = s.skip(n1 as int);
            let a2 = after_array(a);
            let sp = run(a2, Stop::NotSpace);
            let b = a2.skip(sp as int);
            if sp == 0 {
                None
            } else {
                match identifier_len(b) {
                    None => None,
                    Some(n2) => {
                        let c = b.skip(n2 as int);
                        let arr = match spec_array(a) {
                            Some((_, d, it)) => Some((d, it)),
                            None => match spec_array(c) {
                                Some((_, d, it)) => Some((d, it)),
                                None => None,
                            },
                        };
                        let tail = spec_field_tail(after_array(c));
                        Some((s.take(n1 as int), b.take(n2 as int), arr, tail.0, tail.1))
                    },
                }
            }
        },
    }
}

/// The comment and TunerStudio text at `v[from..]`.
fn field_tail(line: &str, v: &[char], from: usize) -> (r: (Option<String>, Option<String>))
    requires
        v@ == line@,
        from <= v@.len(),
    ensures
        opt_text(r.0, spec_field_tail(v@.skip(from as int)).0),
        opt_text(r.1, spec_field_tail(v@.skip(from as int)).1),
{
    let total = v.len();
    let has_comment = from < total && v[from] == ';';
    let (comment, d) = if has_comment {
        assert(v@.skip(from as int).drop_first() =~= v@.skip(from + 1));
        let cm = scan(v, from + 1, Stop::SemiOrControl);
        let text = line.substring_char(from + 1, from + 1 + cm);
        assert(text@ =~= v@.skip(from + 1).take(cm as int));
        assert(v@.skip(from + 1).skip(cm as int) =~= v@.skip(from + 1 + cm));
        (Some(trim(text).to_owned()), from + 1 + cm)
    } else {
        (None, from)
    };
    let ts = if d < total && v[d] == ';' {
        assert(v@.skip(d as int).drop_first() =~= v@.skip(d + 1));
        let tl = scan(v, d + 1, Stop::Control);
        let text = line.substring_char(d + 1, d + 1 + tl);
        assert(text@ =~= v@.skip(d + 1).take(tl as int));
        let t = trim(text);
        if t.is_empty() {
            None
        } else {
            Some(t.to_owned())
        }
    } else {
        None
    };
    (comment, ts)
}

/// The array spec at `v[from..]` (if any) and the position after it.
fn array_then(line: &str, v: &[char], from: usize) -> (r: (Option<(usize, Vec<usize>, bool)>, usize))
    requires
        v@ == line@,
        from <= v@.len(),
    ensures
        r.1 <= v@.len(),
        v@.skip(r.1 as int) == after_array(v@.skip(from as int)),
        match spec_array(v@.skip(from as int)) {
            None => r.0 is None,
            Some((n, d, it)) => r.0 matches Some((m, e, jt)) && m == n && e@ == d && jt == it,
        },
{
    let total = v.len();
    let arr = array_at(line, v, from);
    let next = match &arr {
        Some((k, _, _)) => from + *k,
        None => from,
    };
    proof {
        if let Some((k, _, _)) = spec_array(v@.skip(from as int)) {
            assert(v@.skip(from as int).skip(k as int) =~= v@.skip(next as int));
        }
    }
    (arr, next)
}

/// `r` is what parsing the field line `s` gives.
pub open spec fn field_parse(s: Seq<char>, r: Option<ConfigLine>) -> bool {
    match spec_field(s) {
        None => r is None,
        Some((ty, name, arr, comment, ts)) => r matches Some(ConfigLine::Field(f)) && f.c_type@ == ty
            && f.name@ == name && opt_text(f.comment, comment) && opt_text(f.ts_info_text, ts)
            && match arr {
            Some((d, it)) => f.array_sizes@ == d && f.is_iterate == it,
            None => f.array_sizes@.len() == 0 && !f.is_iterate,
        } && !f.is_bit_field && !f.is_directive && f.true_label is None && f.false_label is None
            && !f.has_autoscale && f.from_iterate is None && f.iterate_index is None,
    }
}

/// Parse a field definition, `TYPE NAME[DIMS];comment;ts_info` or the
/// iterate form `TYPE[DIMS] NAME;…`.
#[verifier::rlimit(100)]
#[verifier::spinoff_prover]
pub fn parse_field(line: &str) -> (r: Option<ConfigLine>)
    ensures
        field_parse(line@, r),
{
    let v = chars_of(line);
    let total = v.len();
    assert(v@.skip(0) =~= v@);
    let n1 = match identifier_at(v.as_slice(), 0) {
        Some(n) => n,
        None => return None,
    };
    let (arr1, a2) = array_then(line, v.as_slice(), n1);
    let sp = scan(v.as_slice(), a2, Stop::NotSpace);
    if sp == 0 {
        return None;
    }
    let b = a2 + sp;
    assert(v@.skip(a2 as int).skip(sp as int) =~= v@.skip(b as int));
    let n2 = match identifier_at(v.as_slice(), b) {
        Some(n) => n,
        None => return None,
    };
    let c = b + n2;
    assert(c <= total);
    assert(v@.skip(b as int).skip(n2 as int) =~= v@.skip(c as int));
    let (arr2, c2) = array_then(line, v.as_slice(), c);
    let (comment, ts) = field_tail(line, v.as_slice(), c2);
    let ty = line.substring_char(0, n1);
    assert(ty@ =~= v@.take(n1 as int));
    let name = line.substring_char(b, c);
    assert(name@ =~= v@.skip(b as int).take(n2 as int));
    let mut field = ConfigField::new(name, ty);
    field.comment = comment;
    field.ts_info_text = ts;
    match arr1 {
        Some((_, dims, it)) => {
            field.array_sizes = dims;
            field.is_iterate = it;
        },
        None => match arr2 {
            Some((_, dims, it)) => {
                field.array_sizes = dims;
                field.is_iterate = it;
            },
            None => {},
        },
    }
    Some(ConfigLine::Field(field))
}

/// `r` is what parsing the `#define` line `s` gives.
pub open spec fn define_parse(s: Seq<char>, r: Option<ConfigLine>) -> bool {
    match spec_define(s) {
        None => r is None,
        Some((name, value)) => r matches Some(ConfigLine::Define(n, v)) && n@ == name && v@ == value,
    }
}

/// `r` is what parsing the comment line `s` gives.
pub open spec fn comment_parse(s: Seq<char>, r: Option<ConfigLine>) -> bool {
    match spec_comment(s) {
        None => r is None,
        Some(text) => r matches Some(ConfigLine::Comment(c)) && c@ == text,
    }
}

/// `r` is what parsing the `include_file` line `s` gives.
pub open spec fn include_parse(s: Seq<char>, r: Option<ConfigLine>) -> bool {
    match spec_directive(s, "include_file"@, 1) {
        None => r is None,
        Some(t) => r matches Some(ConfigLine::Include(p)) && p@ == t,
    }
}

/// `r` is what parsing the `split_lines` line `s` gives.
pub open spec fn split_lines_parse(s: Seq<char>, r: Option<ConfigLine>) -> bool {
    match spec_directive(s, "split_lines"@, 0) {
        None => r is None,
        Some(t) => r matches Some(ConfigLine::SplitLines(p)) && p@ == t,
    }
}

/// `r` is what parsing the struct start `s` introduced by `kw` gives.
pub open spec fn struct_parse(s: Seq<char>, kw: Seq<char>, with_prefix: bool, r: Option<ConfigLine>) -> bool {
    match spec_struct(s, kw) {
        None => r is None,
        Some((name, comment)) => r matches Some(
            ConfigLine::StructStart { name: n, with_prefix: w, comment: c },
        ) && n@ == name && w == with_prefix && opt_text(c, comment),
    }
}

/// `r` is what parsing the (trimmed, non-empty) line `s` gives: the first of
/// define, comment, `include_file`, `split_lines`, `struct_no_prefix`,
/// `end_struct`, `struct`, `bit`, `custom` and field that matches, or `None`
/// when none does.
pub open spec fn spec_line(s: Seq<char>, r: Option<ConfigLine>) -> bool {
    if spec_define(s) is Some {
        define_parse(s, r)
    } else if spec_comment(s) is Some {
        comment_parse(s, r)
    } else if spec_directive(s, "include_file"@, 1) is Some {
        include_parse(s, r)
    } else if spec_directive(s, "split_lines"@, 0) is Some {
        split_lines_parse(s, r)
    } else if spec_struct(s, "struct_no_prefix "@) is Some {
        struct_parse(s, "struct_no_prefix "@, false, r)
    } else if has_prefix(s, "end_struct"@) {
        r == Some(ConfigLine::StructEnd)
    } else if spec_struct(s, "struct "@) is Some {
        struct_parse(s, "struct "@, true, r)
    } else if spec_bit(s) is Some {
        bit_parse(s, r)
    } else if spec_custom(s) is Some {
        custom_parse(s, r)
    } else {
        field_parse(s, r)
    }
}

/// Parse one trimmed line; `None` when no line form matches.
pub fn parse_line(line: &str) -> (r: Option<ConfigLine>)
    ensures
        spec_line(line@, r),
{
    let r = parse_define(line);
    if r.is_some() {
        return r;
    }
    let r = parse_comment(line);
    if r.is_some() {
        return r;
    }
    let r = parse_include(line);
    if r.is_some() {
        return r;
    }
    let r = parse_split_lines(line);
    if r.is_some() {
        return r;
    }
    let r = parse_struct_no_prefix(line);
    if r.is_some() {
        return r;
    }
    let r = parse_struct_end(line);
    if r.is_some() {
        return r;
    }
    let r = parse_struct(line);
    if r.is_some() {
        return r;
    }
    let r = parse_bit(line);
    if r.is_some() {
        return r;
    }
    let r = parse_custom(line);
    if r.is_some() {
        return r;
    }
    parse_field(line)
}

/// `l` without one trailing `\r`.
pub open spec fn strip_cr(l: Seq<char>) -> Seq<char> {
    if l.len() > 0 && l.last() == '\r' {
        l.drop_last()
    } else {
        l
    }
}

/// The lines of `s` as `str::lines` yields them: split after each `\n`
/// (which is dropped together with a `\r` just before it); a final `\n`
/// adds no empty line.
pub open spec fn spec_lines(s: Seq<char>) -> Seq<Seq<char>>
    decreases s.len(),
{
    let i = run(s, Stop::Newline);
    if s.len() == 0 {
        Seq::empty()
    } else if i >= s.len() {
        seq![s]
    } else {
        seq![strip_cr(s.take(i as int))] + spec_lines(s.skip(i + 1 as int))
    }
}

/// The lines of `text`.
pub(crate) fn split_lines_of<'a>(text: &'a str) -> (r: Vec<&'a str>)
    ensures
        r@.len() == spec_lines(text@).len(),
        forall|j: int| 0 <= j < r@.len() ==> (#[trigger] r@[j])@ == spec_lines(text@)[j],
{
    let v = chars_of(text);
    let n = v.len();
    let mut r: Vec<&'a str> = Vec::new();
    let mut at: usize = 0;
    assert(v@.skip(0) =~= v@);
    while at < n
        invariant
            v@ == text@,
            n == v@.len(),
            at <= n,
            spec_lines(text@) == r@.map_values(|x: &str| x@) + spec_lines(v@.skip(at as int)),
        decreases n - at,
    {
        let ghost s = v@.skip(at as int);
        let i = scan(v.as_slice(), at, Stop::Newline);
        if at + i >= n {
            let l = text.substring_char(at, n);
            assert(l@ =~= s);
            r.push(l);
            proof {
                assert(v@.skip(n as int) =~= Seq::<char>::empty());
                assert(spec_lines(v@.skip(n as int)) =~= Seq::<Seq<char>>::empty());
                assert(r@.map_values(|x: &str| x@) =~= r@.drop_last().map_values(|x: &str| x@).push(
                    l@,
                ));
            }
            at = n;
        } else {
            let end = if i > 0 && v[at + i - 1] == '\r' {
                at + i - 1
            } else {
                at + i
            };
            let l = text.substring_char(at, end);
            assert(l@ =~= strip_cr(s.take(i as int)));
            r.push(l);
            proof {
                assert(s.skip(i + 1 as int) =~= v@.skip(at + i + 1));
                assert(r@.map_values(|x: &str| x@) =~= r@.drop_last().map_values(|x: &str| x@).push(
                    l@,
                ));
            }
            at = at + i + 1;
        }
    }
    proof {
        assert(v@.skip(n as int) =~= Seq::<char>::empty());
        assert(spec_lines(text@) =~= r@.map_values(|x: &str| x@));
    }
    r
}

/// The parse error reported for line number `n` with content `line`.
pub open spec fn line_error(n: nat, line: Seq<char>) -> Seq<char> {
    "Parse error at line "@ + decimal_digits(n) + ": no line form matches"@ + "\n  Line content: "@
        + line
}

/// `x` is the parse of the raw line `l`: `Empty` when blank, else the parse
/// of its trimmed text.
pub open spec fn line_parsed(l: Seq<char>, x: ConfigLine) -> bool {
    if spec_trim(l).len() == 0 {
        x == ConfigLine::Empty
    } else {
        spec_line(spec_trim(l), Some(x))
    }
}

/// No line form matches the raw line `l`.
pub open spec fn line_fails(l: Seq<char>) -> bool {
    spec_trim(l).len() > 0 && spec_line(spec_trim(l), None)
}

/// Parse a full config file, line by line; the first line no form matches
/// is reported with its (1-based) number and content.
pub fn parse_document(input: &str) -> (r: Result<Vec<ConfigLine>, String>)
    ensures
        match r {
            Ok(out) => out@.len() == spec_lines(input@).len() && forall|j: int|
                0 <= j < out@.len() ==> line_parsed(spec_lines(input@)[j], #[trigger] out@[j]),
            Err(e) => exists|j: int|
                0 <= j < spec_lines(input@).len() && line_fails(#[trigger] spec_lines(input@)[j])
                    && (forall|q: int| 0 <= q < j ==> !line_fails(#[trigger] spec_lines(input@)[q]))
                    && e@ == line_error((j + 1) as nat, spec_lines(input@)[j]),
        },
        r is Ok <==> forall|j: int|
            0 <= j < spec_lines(input@).len() ==> !line_fails(#[trigger] spec_lines(input@)[j]),
{
    let lines = split_lines_of(input);
    let ghost ls = spec_lines(input@);
    let mut results: Vec<ConfigLine> = Vec::new();
    let mut idx: usize = 0;
    while idx < lines.len()
        invariant
            idx <= lines@.len(),
            lines@.len() == ls.len(),
            ls == spec_lines(input@),
            forall|j: int| 0 <= j < lines@.len() ==> (#[trigger] lines@[j])@ == ls[j],
            results@.len() == idx,
            forall|j: int| 0 <= j < idx ==> line_parsed(ls[j], #[trigger] results@[j]),
            forall|j: int| 0 <= j < idx ==> !line_fails(#[trigger] ls[j]),
        decreases lines@.len() - idx,
    {
        let line = lines[idx];
        let trimmed = trim(line);
        if trimmed.is_empty() {
            results.push(ConfigLine::Empty);
        } else {
            match parse_line(trimmed) {
                Some(parsed) => results.push(parsed),
                None => {
                    let mut msg = String::from_str("Parse error at line ");
                    msg.append(usize_text(idx + 1).as_str());
                    msg.append(": no line form matches");
                    msg.append("\n  Line content: ");
                    msg.append(line);
                    proof {
                        assert(line_fails(ls[idx as int]));
                    }
                    return Err(msg);
                },
            }
        }
        idx += 1;
    }
    Ok(results)
}

} // verus!
