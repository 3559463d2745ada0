//! Variable registry for storing and substituting `#define` values.
use vstd::prelude::*;
use vstd::string::{StrSliceExecFns, StringExecFns};
use crate::codegen::parser::{spec_lines, split_lines_of};
use crate::codegen::text::{
    ascii_ws_pred, chars_of, find_ascii_ws, find_char, first_index, i64_text, is_char,
    lemma_first_index, lemma_i64_text_parses, lemma_trim_len, lead_ws, trail_ws, lowercase, parse_i64, spec_i64_text, spec_parse_i64,
    spec_trim, starts_with, to_lowercase, trim, is_ws, is_whitespace,
};

verus! {

/// Abstract contents of a [`VariableRegistry`]: the text and the numeric
/// value registered under each (lower-cased) name.
pub struct RegistryModel {
    /// Text of every variable.
    pub vars: Map<Seq<char>, Seq<char>>,
    /// Numeric value of the variables registered as numbers.
    pub ints: Map<Seq<char>, i64>,
}

/// No key occurs twice in `s`.
pub open spec fn keys_unique<V>(s: Seq<(String, V)>) -> bool {
    forall|i: int, j: int| 0 <= i < j < s.len() ==> #[trigger] s[i].0@ != #[trigger] s[j].0@
}

/// The map from the (viewed) keys of `s` to its values.
pub open spec fn pairs_map<V>(s: Seq<(String, V)>) -> Map<Seq<char>, V> {
    Map::new(
        |k: Seq<char>| exists|i: int| 0 <= i < s.len() && #[trigger] s[i].0@ == k,
        |k: Seq<char>| s[choose|i: int| 0 <= i < s.len() && #[trigger] s[i].0@ == k].1,
    )
}

/// The map from the (viewed) keys of `s` to its (viewed) text values.
pub open spec fn text_map(s: Seq<(String, String)>) -> Map<Seq<char>, Seq<char>> {
    pairs_map(s).map_values(|v: String| v@)
}

/// First character of a template variable name.
pub open spec fn is_ident_start(c: char) -> bool {
    ('A' <= c && c <= 'Z') || ('a' <= c && c <= 'z') || c == '_'
}

/// Character of a template variable name.
pub open spec fn is_ident_char(c: char) -> bool {
    is_ident_start(c) || ('0' <= c && c <= '9')
}

/// The predicate "is not a name character".
pub open spec fn non_ident_pred() -> spec_fn(char) -> bool {
    |c: char| !is_ident_char(c)
}

/// When `s` begins with `open NAME close`, where `NAME` is the longest run
/// of name characters and starts with a letter or `_`, the length of `NAME`.
pub open spec fn template_match(s: Seq<char>, open: Seq<char>, close: Seq<char>) -> Option<nat> {
    let o = open.len();
    if o < s.len() && s.take(o as int) == open && is_ident_start(s[o as int]) {
        let n = first_index(s.skip(o as int), non_ident_pred());
        let e = o + n;
        if e + close.len() <= s.len() && s.subrange(e as int, (e + close.len()) as int) == close {
            Some(n)
        } else {
            None
        }
    } else {
        None
    }
}

/// `s` with every `open NAME close` (scanned left to right, without overlap)
/// replaced by the value of the variable `NAME` (looked up lower-cased), and
/// left as it is when no such variable exists.
pub open spec fn substitute(
    vars: Map<Seq<char>, Seq<char>>,
    s: Seq<char>,
    open: Seq<char>,
    close: Seq<char>,
) -> Seq<char>
    decreases s.len(),
{
    if s.len() == 0 {
        Seq::empty()
    } else {
        match template_match(s, open, close) {
            Some(n) => {
                let m = open.len() + n + close.len();
                let key = lowercase(s.subrange(open.len() as int, (open.len() + n) as int));
                let rep = if vars.contains_key(key) {
                    vars[key]
                } else {
                    s.take(m as int)
                };
                if 0 < m <= s.len() {
                    rep + substitute(vars, s.skip(m as int), open, close)
                } else {
                    rep
                }
            },
            None => seq![s[0]] + substitute(vars, s.drop_first(), open, close),
        }
    }
}

/// The `@@NAME@@` delimiters.
pub open spec fn tag() -> Seq<char> {
    seq!['@', '@']
}

/// The `@#` opening delimiter of quiet templates.
pub open spec fn quiet_open() -> Seq<char> {
    seq!['@', '#']
}

/// The `#@` closing delimiter of quiet templates.
pub open spec fn quiet_close() -> Seq<char> {
    seq!['#', '@']
}

/// `v[at..]` begins with `pat`.
fn matches_at(v: &[char], at: usize, pat: &[char]) -> (r: bool)
    requires
        at <= v@.len(),
    ensures
        r == (pat@.len() <= v@.len() - at && v@.subrange(at as int, at + pat@.len()) == pat@),
{
    if pat.len() > v.len() - at {
        return false;
    }
    let mut k: usize = 0;
    while k < pat.len()
        invariant
            at + pat@.len() <= v@.len(),
            v@.len() == v.len(),
            k <= pat@.len(),
            forall|j: int| 0 <= j < k ==> v@[at + j] == pat@[j],
        decreases pat@.len() - k,
    {
        if v[at + k] != pat[k] {
            assert(v@.subrange(at as int, at + pat@.len())[k as int] != pat@[k as int]);
            return false;
        }
        k += 1;
    }
    assert(v@.subrange(at as int, at + pat@.len()) =~= pat@);
    true
}

fn is_ident_start_char(c: char) -> (r: bool)
    ensures
        r == is_ident_start(c),
{
    ('A' <= c && c <= 'Z') || ('a' <= c && c <= 'z') || c == '_'
}

fn is_ident_char_exec(c: char) -> (r: bool)
    ensures
        r == is_ident_char(c),
{
    is_ident_start_char(c) || ('0' <= c && c <= '9')
}

/// The template match at position `at` of `v`.
fn match_template(v: &[char], at: usize, open: &[char], close: &[char]) -> (r: Option<usize>)
    requires
        at <= v@.len(),
    ensures
        r == (match template_match(v@.skip(at as int), open@, close@) {
            Some(n) => Some(n as usize),
            None => None::<usize>,
        }),
        r matches Some(n) ==> at + open@.len() + n + close@.len() <= v@.len(),
{
    let ghost s = v@.skip(at as int);
    let o = open.len();
    if !(o < v.len() - at && matches_at(v, at, open) && is_ident_start_char(v[at + o])) {
        proof {
            if o < s.len() && s.take(o as int) == open@ {
                assert(v@.subrange(at as int, at + o) =~= s.take(o as int));
                assert(s[o as int] == v@[at + o]);
            }
        }
        return None;
    }
    assert(s.take(o as int) =~= v@.subrange(at as int, at + o));
    let start = at + o;
    let mut j = start;
    while j < v.len() && is_ident_char_exec(v[j])
        invariant
            start <= j <= v@.len(),
            forall|k: int| start <= k < j ==> is_ident_char(#[trigger] v@[k]),
        decreases v@.len() - j,
    {
        j += 1;
    }
    let n = j - start;
    proof {
        let t = s.skip(o as int);
        assert(t =~= v@.skip(start as int));
        assert forall|k: int| 0 <= k < n implies !non_ident_pred()(#[trigger] t[k]) by {
            assert(t[k] == v@[start + k]);
        }
        if n < t.len() {
            assert(t[n as int] == v@[j as int]);
        }
        lemma_first_index(t, non_ident_pred(), n as int);
    }
    if matches_at(v, j, close) {
        proof {
            assert(s.subrange(o + n, o + n + close@.len()) =~= v@.subrange(
                j as int,
                j + close@.len(),
            ));
        }
        Some(n)
    } else {
        proof {
            if o + n + close@.len() <= s.len() {
                assert(s.subrange(o + n, o + n + close@.len()) =~= v@.subrange(
                    j as int,
                    j + close@.len(),
                ));
            }
        }
        None
    }
}

/// The `#define` keyword.
pub open spec fn define_kw() -> Seq<char> {
    seq!['#', 'd', 'e', 'f', 'i', 'n', 'e']
}

/// For a line that (once trimmed) starts with `#define`, its name and value:
/// the name runs up to the first ASCII whitespace, the value is the rest,
/// both trimmed. `None` for any other line.
pub open spec fn define_parts(line: Seq<char>) -> Option<(Seq<char>, Seq<char>)> {
    let t = spec_trim(line);
    if t.len() >= 7 && t.take(7) == define_kw() {
        let rest = spec_trim(t.skip(7));
        let k = first_index(rest, ascii_ws_pred());
        let name = spec_trim(rest.take(k as int));
        let value = if k < rest.len() {
            spec_trim(rest.skip(k + 1 as int))
        } else {
            Seq::empty()
        };
        Some((name, value))
    } else {
        None
    }
}

/// The additive operators `+` and `-`, which bind loosest.
pub open spec fn additive_pred() -> spec_fn(char) -> bool {
    |c: char| c == '+' || c == '-'
}

/// The multiplicative operators `*` and `/`.
pub open spec fn multiplicative_pred() -> spec_fn(char) -> bool {
    |c: char| c == '*' || c == '/'
}

/// One of the operators `+ - * /`.
pub open spec fn is_op_char(c: char) -> bool {
    c == '+' || c == '-' || c == '*' || c == '/'
}

/// The last character before position `p` of `t` that is not whitespace.
pub open spec fn prev_nonws(t: Seq<char>, p: int) -> Option<char>
    decreases p,
{
    if p <= 0 {
        None
    } else if is_ws(t[p - 1]) {
        prev_nonws(t, p - 1)
    } else {
        Some(t[p - 1])
    }
}

/// `t[p]` is an operator of `pred` used between two operands: something
/// other than an operator comes before it (so the sign of a number, as in
/// `3 * -2`, is not one).
pub open spec fn binary_op_at(t: Seq<char>, p: int, pred: spec_fn(char) -> bool) -> bool {
    &&& pred(t[p])
    &&& prev_nonws(t, p) matches Some(c) && !is_op_char(c)
}

/// Position of the last binary operator of `pred` before position `n`.
pub open spec fn last_binary(t: Seq<char>, pred: spec_fn(char) -> bool, n: int) -> Option<nat>
    decreases n,
{
    if n <= 0 {
        None
    } else if binary_op_at(t, n - 1, pred) {
        Some((n - 1) as nat)
    } else {
        last_binary(t, pred, n - 1)
    }
}

/// The last binary operator before `n` lies before `n` and is one of `pred`.
pub proof fn lemma_last_binary(t: Seq<char>, pred: spec_fn(char) -> bool, n: int)
    ensures
        last_binary(t, pred, n) matches Some(i) ==> i < n && pred(t[i as int]),
    decreases n,
{
    if n > 0 && !binary_op_at(t, n - 1, pred) {
        lemma_last_binary(t, pred, n - 1);
    }
}

/// Where an expression is split: at its last binary `+` or `-` when it has
/// one (the loosest operators, grouping to the left), else at its last
/// binary `*` or `/`.
pub open spec fn split_at(t: Seq<char>) -> Option<nat> {
    match last_binary(t, additive_pred(), t.len() as int) {
        Some(p) => Some(p),
        None => last_binary(t, multiplicative_pred(), t.len() as int),
    }
}

/// `a op b` in `i64`, `None` on overflow or division by zero.
pub open spec fn apply_op(op: char, a: i64, b: i64) -> Option<i64> {
    if op == '*' {
        a.checked_mul(b)
    } else if op == '/' {
        a.checked_div(b)
    } else if op == '+' {
        a.checked_add(b)
    } else {
        a.checked_sub(b)
    }
}

/// Value of the expression text `e`: a number, or `left op right` split at
/// [`split_at`] (so `*` and `/` bind tighter than `+` and `-`, and operators
/// of one kind group to the left) and evaluated recursively (left first); `Some(Err(message))` when some part is not a number, and
/// `None` where the arithmetic overflows or divides by zero.
pub open spec fn spec_eval(e: Seq<char>) -> Option<Result<i64, Seq<char>>>
    decreases e.len(),
{
    let t = spec_trim(e);
    match spec_parse_i64(t) {
        Some(v) => Some(Ok(v)),
        None => match split_at(t) {
            None => Some(Err("Cannot evaluate expression: "@ + t)),
            Some(p) => {
                let op = t[p as int];
                let left = spec_trim(t.take(p as int));
                let right = spec_trim(t.skip(p + 1 as int));
                proof {
                    lemma_trim_len(e);
                    lemma_last_binary(t, additive_pred(), t.len() as int);
                    lemma_last_binary(t, multiplicative_pred(), t.len() as int);
                    lemma_trim_len(t.take(p as int));
                    lemma_trim_len(t.skip(p + 1 as int));
                }
                match spec_eval(left) {
                    None => None,
                    Some(Err(m)) => Some(Err(m)),
                    Some(Ok(a)) => match spec_eval(right) {
                        None => None,
                        Some(Err(m)) => Some(Err(m)),
                        Some(Ok(b)) => match apply_op(op, a, b) {
                            Some(v) => Some(Ok(v)),
                            None => None,
                        },
                    },
                }
            },
        },
    }
}

/// A result with its error text viewed.
pub open spec fn result_view(r: Result<i64, String>) -> Result<i64, Seq<char>> {
    match r {
        Ok(v) => Ok(v),
        Err(e) => Err(e@),
    }
}

/// `s` trimmed, without one pair of matching surrounding quotes (`"` or `'`).
pub open spec fn spec_unquote(s: Seq<char>) -> Seq<char> {
    let t = spec_trim(s);
    if t.len() >= 2 && t[0] == t.last() && (t[0] == '"' || t[0] == '\'') {
        t.subrange(1, t.len() - 1)
    } else {
        t
    }
}

/// The last character before position `p` of `v` that is not whitespace.
fn prev_nonws_of(v: &[char], p: usize) -> (r: Option<char>)
    requires
        p <= v@.len(),
    ensures
        r == prev_nonws(v@, p as int),
{
    let mut i = p;
    while i > 0 && is_whitespace(v[i - 1])
        invariant
            i <= p <= v@.len(),
            prev_nonws(v@, p as int) == prev_nonws(v@, i as int),
        decreases i,
    {
        i -= 1;
    }
    if i == 0 {
        None
    } else {
        Some(v[i - 1])
    }
}

/// The position of the last binary operator of `v` that is additive (when
/// `additive`) or multiplicative.
fn find_last_op(v: &[char], additive: bool) -> (r: Option<usize>)
    ensures
        r == (match last_binary(
            v@,
            if additive {
                additive_pred()
            } else {
                multiplicative_pred()
            },
            v@.len() as int,
        ) {
            Some(i) => Some(i as usize),
            None => None::<usize>,
        }),
{
    let ghost pred = if additive {
        additive_pred()
    } else {
        multiplicative_pred()
    };
    let mut i: usize = v.len();
    while i > 0
        invariant
            i <= v@.len(),
            last_binary(v@, pred, v@.len() as int) == last_binary(v@, pred, i as int),
            pred == (if additive { additive_pred() } else { multiplicative_pred() }),
        decreases i,
    {
        let c = v[i - 1];
        let hit = if additive {
            c == '+' || c == '-'
        } else {
            c == '*' || c == '/'
        };
        if hit {
            match prev_nonws_of(v, i - 1) {
                Some(b) => {
                    if !(b == '+' || b == '-' || b == '*' || b == '/') {
                        return Some(i - 1);
                    }
                },
                None => {},
            }
        }
        i -= 1;
    }
    None
}

/// The operator of `t` to split at, and its position.
fn find_split(t: &[char]) -> (r: Option<(char, usize)>)
    ensures
        r matches Some((op, p)) ==> split_at(t@) == Some(p as nat) && p < t@.len() && op == t@[p as int],
        r is None ==> split_at(t@) is None,
{
    proof {
        lemma_last_binary(t@, additive_pred(), t@.len() as int);
        lemma_last_binary(t@, multiplicative_pred(), t@.len() as int);
    }
    match find_last_op(t, true) {
        Some(p) => Some((t[p], p)),
        None => match find_last_op(t, false) {
            Some(p) => Some((t[p], p)),
            None => None,
        },
    }
}

/// Every cached number is registered as a variable whose text is that
/// number's decimal form.
pub open spec fn ints_agree(m: RegistryModel) -> bool {
    forall|k: Seq<char>|
        #[trigger] m.ints.contains_key(k) ==> m.vars.contains_key(k) && m.vars[k] == spec_i64_text(
            m.ints[k],
        )
}

/// Variable registry for `#define` storage and substitution; names are
/// looked up case-insensitively (through their lower-case form).
#[derive(Debug)]
pub struct VariableRegistry {
    /// Variable storage, keyed by lower-cased name.
    variables: Vec<(String, String)>,
    /// Integer value cache for numeric variables.
    int_values: Vec<(String, i64)>,
}

impl View for VariableRegistry {
    type V = RegistryModel;

    closed spec fn view(&self) -> RegistryModel {
        RegistryModel { vars: text_map(self.variables@), ints: pairs_map(self.int_values@) }
    }
}

/// Looking up key `k` of a list without repeated keys finds its position.
pub(crate) proof fn lemma_pairs_lookup<V>(s: Seq<(String, V)>, i: int)
    requires
        keys_unique(s),
        0 <= i < s.len(),
    ensures
        pairs_map(s).contains_key(s[i].0@),
        pairs_map(s)[s[i].0@] == s[i].1,
{
    let k = s[i].0@;
    assert(pairs_map(s).dom().contains(k));
    let j = choose|j: int| 0 <= j < s.len() && #[trigger] s[j].0@ == k;
    if j != i {
        if j < i {
            assert(s[j].0@ != s[i].0@);
        } else {
            assert(s[i].0@ != s[j].0@);
        }
    }
}

/// Replacing the value at a position keeps the keys and updates one entry.
proof fn lemma_pairs_set<V>(s: Seq<(String, V)>, i: int, e: (String, V))
    requires
        keys_unique(s),
        0 <= i < s.len(),
        e.0@ == s[i].0@,
    ensures
        keys_unique(s.update(i, e)),
        pairs_map(s.update(i, e)) == pairs_map(s).insert(e.0@, e.1),
{
    let t = s.update(i, e);
    assert forall|a: int, b: int| 0 <= a < b < t.len() implies #[trigger] t[a].0@ != #[trigger] t[b].0@ by {
        assert(s[a].0@ != s[b].0@);
    }
    lemma_pairs_lookup(t, i);
    assert forall|k: Seq<char>| #[trigger] pairs_map(t).contains_key(k) <==> pairs_map(s).insert(
        e.0@,
        e.1,
    ).contains_key(k) by {
        if pairs_map(s).contains_key(k) {
            let j = choose|j: int| 0 <= j < s.len() && #[trigger] s[j].0@ == k;
            assert(t[j].0@ == k);
        }
        if pairs_map(t).contains_key(k) {
            let j = choose|j: int| 0 <= j < t.len() && #[trigger] t[j].0@ == k;
            assert(s[j].0@ == k);
        }
    }
    assert forall|k: Seq<char>| #[trigger] pairs_map(t).contains_key(k) && k != e.0@ implies pairs_map(
        t,
    )[k] == pairs_map(s)[k] by {
        let j = choose|j: int| 0 <= j < t.len() && #[trigger] t[j].0@ == k;
        assert(s[j].0@ == k);
        lemma_pairs_lookup(t, j);
        lemma_pairs_lookup(s, j);
    }
    assert(pairs_map(t) =~= pairs_map(s).insert(e.0@, e.1));
}

/// Appending an entry with a new key adds that key.
proof fn lemma_pairs_push<V>(s: Seq<(String, V)>, e: (String, V))
    requires
        keys_unique(s),
        !pairs_map(s).contains_key(e.0@),
    ensures
        keys_unique(s.push(e)),
        pairs_map(s.push(e)) == pairs_map(s).insert(e.0@, e.1),
{
    let t = s.push(e);
    assert forall|a: int, b: int| 0 <= a < b < t.len() implies #[trigger] t[a].0@ != #[trigger] t[b].0@ by {
        if b == s.len() {
            assert(t[a].0@ == s[a].0@);
            if s[a].0@ == e.0@ {
                assert(pairs_map(s).contains_key(s[a].0@));
            }
        } else {
            assert(s[a].0@ != s[b].0@);
        }
    }
    lemma_pairs_lookup(t, s.len() as int);
    assert forall|k: Seq<char>| #[trigger] pairs_map(t).contains_key(k) <==> pairs_map(s).insert(
        e.0@,
        e.1,
    ).contains_key(k) by {
        if pairs_map(s).contains_key(k) {
            let j = choose|j: int| 0 <= j < s.len() && #[trigger] s[j].0@ == k;
            assert(t[j].0@ == k);
        }
        if pairs_map(t).contains_key(k) && k != e.0@ {
            let j = choose|j: int| 0 <= j < t.len() && #[trigger] t[j].0@ == k;
            assert(j < s.len());
            assert(s[j].0@ == k);
        }
    }
    assert forall|k: Seq<char>| #[trigger] pairs_map(t).contains_key(k) && k != e.0@ implies pairs_map(
        t,
    )[k] == pairs_map(s)[k] by {
        let j = choose|j: int| 0 <= j < t.len() && #[trigger] t[j].0@ == k;
        assert(j < s.len());
        assert(s[j].0@ == k);
        lemma_pairs_lookup(t, j);
        lemma_pairs_lookup(s, j);
    }
    assert(pairs_map(t) =~= pairs_map(s).insert(e.0@, e.1));
}

/// An entry-by-entry copy of `v`.
fn copy_pairs<V: Copy>(v: &Vec<(String, V)>) -> (r: Vec<(String, V)>)
    ensures
        r@ == v@,
{
    let mut r: Vec<(String, V)> = Vec::new();
    let mut i: usize = 0;
    while i < v.len()
        invariant
            i <= v@.len(),
            r@ == v@.take(i as int),
        decreases v@.len() - i,
    {
        let e = (v[i].0.clone(), v[i].1);
        r.push(e);
        proof {
            assert(r@ =~= v@.take(i + 1));
        }
        i += 1;
    }
    assert(r@ =~= v@);
    r
}

/// Position of key `key` in `v`, if present.
pub(crate) fn find_key<V>(v: &Vec<(String, V)>, key: &String) -> (r: Option<usize>)
    requires
        keys_unique(v@),
    ensures
        match r {
            Some(i) => i < v@.len() && v@[i as int].0@ == key@,
            None => !pairs_map(v@).contains_key(key@),
        },
{
    let mut i: usize = 0;
    while i < v.len()
        invariant
            i <= v@.len(),
            forall|k: int| 0 <= k < i ==> #[trigger] v@[k].0@ != key@,
        decreases v@.len() - i,
    {
        if v[i].0 == *key {
            return Some(i);
        }
        i += 1;
    }
    proof {
        if pairs_map(v@).contains_key(key@) {
            let j = choose|j: int| 0 <= j < v@.len() && #[trigger] v@[j].0@ == key@;
            assert(v@[j].0@ != key@);
        }
    }
    None
}

/// Store `value` under `key`, replacing an earlier value.
pub(crate) fn put<V>(v: &mut Vec<(String, V)>, key: String, value: V)
    requires
        keys_unique(old(v)@),
    ensures
        keys_unique(final(v)@),
        pairs_map(final(v)@) == pairs_map(old(v)@).insert(key@, value),
{
    match find_key(v, &key) {
        Some(i) => {
            proof {
                lemma_pairs_set(v@, i as int, (key, value));
            }
            v.set(i, (key, value));
        },
        None => {
            proof {
                lemma_pairs_push(v@, (key, value));
            }
            v.push((key, value));
        },
    }
}

/// Removing the entry at a position removes its key.
proof fn lemma_pairs_remove<V>(s: Seq<(String, V)>, i: int)
    requires
        keys_unique(s),
        0 <= i < s.len(),
    ensures
        keys_unique(s.remove(i)),
        pairs_map(s.remove(i)) == pairs_map(s).remove(s[i].0@),
{
    let t = s.remove(i);
    let key = s[i].0@;
    assert forall|a: int, b: int| 0 <= a < b < t.len() implies #[trigger] t[a].0@ != #[trigger] t[b].0@ by {
        let a2 = if a < i { a } else { a + 1 };
        let b2 = if b < i { b } else { b + 1 };
        assert(t[a] == s[a2]);
        assert(t[b] == s[b2]);
        assert(s[a2].0@ != s[b2].0@);
    }
    assert forall|k: Seq<char>| #[trigger] pairs_map(t).contains_key(k) <==> pairs_map(s).remove(key).contains_key(k) by {
        if pairs_map(t).contains_key(k) {
            let j = choose|j: int| 0 <= j < t.len() && #[trigger] t[j].0@ == k;
            let j2 = if j < i { j } else { j + 1 };
            assert(t[j] == s[j2]);
            if j2 < i {
                assert(s[j2].0@ != s[i].0@);
            } else {
                assert(s[i].0@ != s[j2].0@);
            }
        }
        if pairs_map(s).remove(key).contains_key(k) {
            let j = choose|j: int| 0 <= j < s.len() && #[trigger] s[j].0@ == k;
            assert(j != i);
            let j2 = if j < i { j } else { j - 1 };
            assert(t[j2] == s[j]);
        }
    }
    assert forall|k: Seq<char>| #[trigger] pairs_map(t).contains_key(k) implies pairs_map(t)[k]
        == pairs_map(s)[k] by {
        let j = choose|j: int| 0 <= j < t.len() && #[trigger] t[j].0@ == k;
        let j2 = if j < i { j } else { j + 1 };
        assert(t[j] == s[j2]);
        lemma_pairs_lookup(t, j);
        lemma_pairs_lookup(s, j2);
    }
    assert(pairs_map(t) =~= pairs_map(s).remove(key));
}

/// Remove the entry stored under `key`, if any.
pub(crate) fn remove_key<V>(v: &mut Vec<(String, V)>, key: &String)
    requires
        keys_unique(old(v)@),
    ensures
        keys_unique(final(v)@),
        pairs_map(final(v)@) == pairs_map(old(v)@).remove(key@),
{
    match find_key(v, key) {
        Some(i) => {
            proof {
                lemma_pairs_remove(v@, i as int);
            }
            v.remove(i);
        },
        None => {
            assert(pairs_map(v@) =~= pairs_map(v@).remove(key@));
        },
    }
}

impl Clone for VariableRegistry {
    fn clone(&self) -> (r: Self)
        ensures
            r@ == self@,
    {
        proof {
            use_type_invariant(self);
        }
        let mut variables: Vec<(String, String)> = Vec::new();
        let mut i: usize = 0;
        while i < self.variables.len()
            invariant
                i <= self.variables@.len(),
                variables@ == self.variables@.take(i as int),
            decreases self.variables@.len() - i,
        {
            let e = (self.variables[i].0.clone(), self.variables[i].1.clone());
            variables.push(e);
            proof {
                assert(variables@ =~= self.variables@.take(i + 1));
            }
            i += 1;
        }
        assert(variables@ =~= self.variables@);
        VariableRegistry { variables, int_values: copy_pairs(&self.int_values) }
    }
}

impl VariableRegistry {
    /// Delimiter around a variable name in a template (`@@NAME@@`).
    pub const TEMPLATE_TAG: &'static str = "@@";

    /// Opening delimiter of a quiet template (`@#NAME#@`).
    pub const TEMPLATE_QUITE_OPEN: &'static str = "@#";

    /// Closing delimiter of a quiet template.
    pub const TEMPLATE_QUITE_CLOSE: &'static str = "#@";

    /// Multiplication token of expressions.
    pub const MULT_TOKEN: char = '*';

    /// No name is stored twice, and every cached number is the value of its
    /// variable's text.
    #[verifier::type_invariant]
    closed spec fn wf(&self) -> bool {
        keys_unique(self.variables@) && keys_unique(self.int_values@) && ints_agree(self@)
    }

    /// Create a new empty registry.
    pub fn new() -> (r: Self)
        ensures
            r@.vars == Map::<Seq<char>, Seq<char>>::empty(),
            r@.ints == Map::<Seq<char>, i64>::empty(),
    {
        let r = VariableRegistry { variables: Vec::new(), int_values: Vec::new() };
        assert(r@.vars =~= Map::<Seq<char>, Seq<char>>::empty());
        assert(r@.ints =~= Map::<Seq<char>, i64>::empty());
        r
    }

    /// Register a variable with its value (under the lower-cased name); a
    /// number cached under that name is dropped.
    pub fn register(&mut self, name: &str, value: &str)
        ensures
            final(self)@.vars == old(self)@.vars.insert(lowercase(name@), value@),
            final(self)@.ints == old(self)@.ints.remove(lowercase(name@)),
    {
        let key = to_lowercase(name);
        let mut cur = VariableRegistry { variables: Vec::new(), int_values: Vec::new() };
        proof {
            assert(cur@.ints =~= Map::<Seq<char>, i64>::empty());
        }
        std::mem::swap(&mut cur, self);
        proof {
            use_type_invariant(&cur);
        }
        let ghost m0 = cur@;
        let VariableRegistry { variables: mut vars, int_values: mut ints } = cur;
        let ghost before = vars@;
        remove_key(&mut ints, &key);
        put(&mut vars, key, value.to_owned());
        proof {
            assert(text_map(vars@) =~= text_map(before).insert(lowercase(name@), value@));
            let m1 = RegistryModel { vars: text_map(vars@), ints: pairs_map(ints@) };
            assert forall|k: Seq<char>| #[trigger] m1.ints.contains_key(k) implies m1.vars.contains_key(k)
                && m1.vars[k] == spec_i64_text(m1.ints[k]) by {
                assert(m0.ints.contains_key(k));
            }
        }
        *self = VariableRegistry { variables: vars, int_values: ints };
    }

    /// Register a numeric variable: its text is the decimal form of `value`
    /// and the number itself is cached.
    pub fn register_numeric(&mut self, name: &str, value: i64)
        ensures
            final(self)@.vars == old(self)@.vars.insert(lowercase(name@), spec_i64_text(value)),
            final(self)@.ints == old(self)@.ints.insert(lowercase(name@), value),
    {
        let key = to_lowercase(name);
        let mut cur = VariableRegistry { variables: Vec::new(), int_values: Vec::new() };
        proof {
            assert(cur@.ints =~= Map::<Seq<char>, i64>::empty());
        }
        std::mem::swap(&mut cur, self);
        proof {
            use_type_invariant(&cur);
        }
        let ghost m0 = cur@;
        let VariableRegistry { variables: mut vars, int_values: mut ints } = cur;
        put(&mut ints, key.clone(), value);
        let ghost before = vars@;
        put(&mut vars, key, i64_text(value));
        proof {
            assert(text_map(vars@) =~= text_map(before).insert(
                lowercase(name@),
                spec_i64_text(value),
            ));
            let m1 = RegistryModel { vars: text_map(vars@), ints: pairs_map(ints@) };
            assert forall|k: Seq<char>| #[trigger] m1.ints.contains_key(k) implies m1.vars.contains_key(k)
                && m1.vars[k] == spec_i64_text(m1.ints[k]) by {
                if k != lowercase(name@) {
                    assert(m0.ints.contains_key(k));
                }
            }
        }
        *self = VariableRegistry { variables: vars, int_values: ints };
    }

    /// Get a variable's value (case-insensitive).
    pub fn get(&self, name: &str) -> (r: Option<&str>)
        ensures
            r is Some <==> self@.vars.contains_key(lowercase(name@)),
            r matches Some(v) ==> v@ == self@.vars[lowercase(name@)],
    {
        proof {
            use_type_invariant(self);
        }
        let key = to_lowercase(name);
        match find_key(&self.variables, &key) {
            Some(i) => {
                proof {
                    lemma_pairs_lookup(self.variables@, i as int);
                }
                Some(self.variables[i].1.as_str())
            },
            None => None,
        }
    }

    /// Whether a variable exists (case-insensitive).
    pub fn contains(&self, name: &str) -> (r: bool)
        ensures
            r == self@.vars.contains_key(lowercase(name@)),
    {
        self.get(name).is_some()
    }

    /// The numeric value of a variable: its current text parsed as an `i64`
    /// (served from the cache when it was registered as a number).
    pub fn get_numeric(&self, name: &str) -> (r: Option<i64>)
        ensures
            r == (if self@.vars.contains_key(lowercase(name@)) {
                spec_parse_i64(self@.vars[lowercase(name@)])
            } else {
                None
            }),
    {
        proof {
            use_type_invariant(self);
        }
        let key = to_lowercase(name);
        match find_key(&self.int_values, &key) {
            Some(i) => {
                proof {
                    lemma_pairs_lookup(self.int_values@, i as int);
                    lemma_i64_text_parses(self.int_values@[i as int].1);
                    assert(self@.ints.contains_key(key@));
                }
                Some(self.int_values[i].1)
            },
            None => match self.get(name) {
                Some(text) => parse_i64(text),
                None => None,
            },
        }
    }

    /// The variable names in the order they were first registered.
    pub closed spec fn key_order(&self) -> Seq<Seq<char>> {
        self.variables@.map_values(|e: (String, String)| e.0@)
    }

    /// All variable names (lower-cased), each once, in the order they were
    /// first registered.
    pub fn keys(&self) -> (r: Vec<String>)
        ensures
            r@.map_values(|k: String| k@).to_set() == self@.vars.dom(),
            r@.map_values(|k: String| k@).no_duplicates(),
            r@.map_values(|k: String| k@) == self.key_order(),
    {
        proof {
            use_type_invariant(self);
        }
        let mut r: Vec<String> = Vec::new();
        let mut i: usize = 0;
        while i < self.variables.len()
            invariant
                i <= self.variables@.len(),
                r@.len() == i,
                forall|k: int| 0 <= k < i ==> #[trigger] r@[k]@ == self.variables@[k].0@,
            decreases self.variables@.len() - i,
        {
            r.push(self.variables[i].0.clone());
            i += 1;
        }
        let ghost names = r@.map_values(|k: String| k@);
        let ghost vs = self.variables@;
        assert(names =~= self.key_order());
        proof {
            assert forall|k: Seq<char>| #[trigger] names.to_set().contains(k) <==> self@.vars.dom().contains(k) by {
                if names.to_set().contains(k) {
                    let j = choose|j: int| 0 <= j < names.len() && names[j] == k;
                    assert(vs[j].0@ == k);
                }
                if self@.vars.dom().contains(k) {
                    let j = choose|j: int| 0 <= j < vs.len() && #[trigger] vs[j].0@ == k;
                    assert(names[j] == k);
                }
            }
            assert(names.to_set() =~= self@.vars.dom());
            assert forall|a: int, b: int| 0 <= a < names.len() && 0 <= b < names.len() && a != b implies names[a] != names[b] by {
                if a < b {
                    assert(vs[a].0@ != vs[b].0@);
                } else {
                    assert(vs[b].0@ != vs[a].0@);
                }
            }
        }
        r
    }

    /// Replace every `open NAME close` in `input` by the variable's value.
    fn apply_template(&self, input: &str, open: &str, close: &str) -> (r: String)
        requires
            open@.len() + 1 + close@.len() <= usize::MAX,
        ensures
            r@ == substitute(self@.vars, input@, open@, close@),
    {
        let v = chars_of(input);
        let ov = chars_of(open);
        let cv = chars_of(close);
        let ghost vars = self@.vars;
        let ghost whole = substitute(vars, input@, open@, close@);
        let n = v.len();
        let mut out = String::new();
        let mut seg: usize = 0;
        let mut i: usize = 0;
        assert(v@.skip(0) =~= v@);
        while i < n
            invariant
                v@ == input@,
                ov@ == open@,
                cv@ == close@,
                n == v@.len(),
                vars == self@.vars,
                whole == substitute(vars, input@, open@, close@),
                seg <= i <= n,
                out@ + v@.subrange(seg as int, i as int) + substitute(
                    vars,
                    v@.skip(i as int),
                    open@,
                    close@,
                ) == whole,
            decreases n - i,
        {
            let ghost s = v@.skip(i as int);
            match match_template(v.as_slice(), i, ov.as_slice(), cv.as_slice()) {
                Some(len) => {
                    let o = ov.len();
                    let m = o + len + cv.len();
                    let name = input.substring_char(i + o, i + o + len);
                    assert(name@ =~= s.subrange(o as int, o + len));
                    let pending = input.substring_char(seg, i);
                    out.append(pending);
                    match self.get(name) {
                        Some(value) => out.append(value),
                        None => {
                            let text = input.substring_char(i, i + m);
                            assert(text@ =~= s.take(m as int));
                            out.append(text);
                        },
                    }
                    proof {
                        assert(s.skip(m as int) =~= v@.skip(i + m));
                    }
                    i = i + m;
                    seg = i;
                    assert(v@.subrange(seg as int, i as int) =~= Seq::<char>::empty());
                },
                None => {
                    proof {
                        assert(s.drop_first() =~= v@.skip(i + 1));
                        assert(v@.subrange(seg as int, i + 1) =~= v@.subrange(seg as int, i as int)
                            + seq![s[0]]);
                    }
                    i = i + 1;
                },
            }
        }
        let rest = input.substring_char(seg, n);
        out.append(rest);
        assert(v@.skip(n as int) =~= Seq::<char>::empty());
        out
    }

    /// Replace every `@@NAME@@` by the variable's value (left as it is when
    /// `NAME` is not registered).
    pub fn apply_variables(&self, input: &str) -> (r: String)
        ensures
            r@ == substitute(self@.vars, input@, tag(), tag()),
    {
        proof {
            reveal_strlit("@@");
            assert("@@"@ =~= tag());
        }
        self.apply_template(input, "@@", "@@")
    }

    /// Replace every `@#NAME#@` by the variable's value (left as it is when
    /// `NAME` is not registered).
    pub fn apply_quiet_template(&self, input: &str) -> (r: String)
        ensures
            r@ == substitute(self@.vars, input@, quiet_open(), quiet_close()),
    {
        proof {
            reveal_strlit("@#");
            reveal_strlit("#@");
            assert("@#"@ =~= quiet_open());
            assert("#@"@ =~= quiet_close());
        }
        self.apply_template(input, "@#", "#@")
    }

    /// Process a `#define` line and register its name: as a number when the
    /// value parses as an `i64`, as text otherwise.
    pub fn process_define_line(&mut self, line: &str) -> (r: Result<(), String>)
        ensures
            match define_parts(line@) {
                None => r matches Err(e) && e@ == "Not a #define line"@ && final(self)@ == old(
                    self,
                )@,
                Some((name, value)) => if name.len() == 0 {
                    r matches Err(e) && e@ == "Empty define name"@ && final(self)@ == old(self)@
                } else {
                    &&& r is Ok
                    &&& match spec_parse_i64(value) {
                        Some(x) => final(self)@.vars == old(self)@.vars.insert(
                            lowercase(name),
                            spec_i64_text(x),
                        ) && final(self)@.ints == old(self)@.ints.insert(lowercase(name), x),
                        None => final(self)@.vars == old(self)@.vars.insert(lowercase(name), value)
                            && final(self)@.ints == old(self)@.ints.remove(lowercase(name)),
                    }
                },
            },
    {
        let t = trim(line);
        let tv = chars_of(t);
        proof {
            reveal_strlit("#define");
            assert("#define"@ =~= define_kw());
        }
        if !starts_with(tv.as_slice(), "#define") {
            return Err(String::from_str("Not a #define line"));
        }
        assert(t@.subrange(7, t@.len() as int) =~= t@.skip(7));
        let rest = trim(t.substring_char(7, tv.len()));
        let rv = chars_of(rest);
        let k = find_ascii_ws(rv.as_slice());
        assert(rest@.subrange(0, k as int) =~= rest@.take(k as int));
        let name = trim(rest.substring_char(0, k));
        if name.is_empty() {
            return Err(String::from_str("Empty define name"));
        }
        let value = if k < rv.len() {
            assert(rest@.subrange(k + 1, rest@.len() as int) =~= rest@.skip(k + 1 as int));
            trim(rest.substring_char(k + 1, rv.len()))
        } else {
            assert(rest@.subrange(k as int, k as int) =~= Seq::<char>::empty());
            rest.substring_char(k, k)
        };
        match parse_i64(value) {
            Some(x) => self.register_numeric(name, x),
            None => self.register(name, value),
        }
        Ok(())
    }

    /// Evaluate `expr` after substituting `@@NAME@@` variables.
    pub fn evaluate(&self, expr: &str) -> (r: Result<i64, String>)
        requires
            spec_eval(substitute(self@.vars, expr@, tag(), tag())) is Some,
        ensures
            Some(result_view(r)) == spec_eval(substitute(self@.vars, expr@, tag(), tag())),
    {
        let expanded = self.apply_variables(expr);
        self.eval_expr(expanded.as_str())
    }

    /// Evaluate `expr` after substituting `@@NAME@@` variables, or `None`
    /// where the arithmetic would overflow or divide by zero.
    pub fn checked_evaluate(&self, expr: &str) -> (r: Option<Result<i64, String>>)
        ensures
            r matches Some(x) ==> Some(result_view(x)) == spec_eval(
                substitute(self@.vars, expr@, tag(), tag()),
            ),
            r is None <==> spec_eval(substitute(self@.vars, expr@, tag(), tag())) is None,
    {
        let expanded = self.apply_variables(expr);
        eval_checked(expanded.as_str())
    }

    /// Evaluate an expression of numbers and `* / + -`.
    pub fn eval_expr(&self, expr: &str) -> (r: Result<i64, String>)
        requires
            spec_eval(expr@) is Some,
        ensures
            Some(result_view(r)) == spec_eval(expr@),
    {
        match eval_checked(expr) {
            Some(r) => r,
            None => Err(String::new()),
        }
    }

    /// Remove surrounding quotes from (trimmed) `s`.
    pub fn unquote(s: &str) -> (r: String)
        ensures
            r@ == spec_unquote(s@),
    {
        let t = trim(s);
        let v = chars_of(t);
        let n = v.len();
        if n >= 2 && v[0] == v[n - 1] && (v[0] == '"' || v[0] == '\'') {
            return t.substring_char(1, n - 1).to_owned();
        }
        t.to_owned()
    }

    /// Surround `s` with double quotes.
    pub fn quote(s: &str) -> (r: String)
        ensures
            r@ == seq!['"'] + s@ + seq!['"'],
    {
        proof {
            reveal_strlit("\"");
        }
        let mut r = String::from_str("\"");
        r.append(s);
        r.append("\"");
        r
    }
}

/// [`VariableRegistry::eval_expr`] with `None` where the arithmetic would
/// overflow or divide by zero.
fn eval_checked(expr: &str) -> (r: Option<Result<i64, String>>)
    ensures
        r matches Some(x) ==> Some(result_view(x)) == spec_eval(expr@),
        r is None <==> spec_eval(expr@) is None,
    decreases expr@.len(),
{
    let t = trim(expr);
    if let Some(v) = parse_i64(t) {
        return Some(Ok(v));
    }
    let tv = chars_of(t);
    match find_split(tv.as_slice()) {
        None => Some(Err(String::from_str("Cannot evaluate expression: ").concat(t))),
        Some((op, p)) => {
            proof {
                lemma_trim_len(expr@);
                lemma_trim_len(t@.take(p as int));
                lemma_trim_len(t@.skip(p + 1));
            }
            let left = trim(t.substring_char(0, p));
            let right = trim(t.substring_char(p + 1, tv.len()));
            assert(t@.subrange(0, p as int) =~= t@.take(p as int));
            assert(t@.subrange(p + 1, t@.len() as int) =~= t@.skip(p + 1));
            let a = match eval_checked(left) {
                None => return None,
                Some(Err(m)) => return Some(Err(m)),
                Some(Ok(a)) => a,
            };
            let b = match eval_checked(right) {
                None => return None,
                Some(Err(m)) => return Some(Err(m)),
                Some(Ok(b)) => b,
            };
            let x = if op == '*' {
                a.checked_mul(b)
            } else if op == '/' {
                a.checked_div(b)
            } else if op == '+' {
                a.checked_add(b)
            } else {
                a.checked_sub(b)
            };
            match x {
                Some(v) => Some(Ok(v)),
                None => None,
            }
        },
    }
}

/// What is registered under a name is what any spelling of that name that
/// lower-cases the same reads back; every other name keeps its value.
pub proof fn lemma_register_then_get(
    m: RegistryModel,
    name: Seq<char>,
    value: Seq<char>,
    other: Seq<char>,
)
    ensures
        lowercase(other) == lowercase(name) ==> m.vars.insert(lowercase(name), value).contains_key(
            lowercase(other),
        ) && m.vars.insert(lowercase(name), value)[lowercase(other)] == value,
        lowercase(other) != lowercase(name) ==> m.vars.insert(lowercase(name), value).contains_key(
            lowercase(other),
        ) == m.vars.contains_key(lowercase(other)) && m.vars.insert(lowercase(name), value)[lowercase(
            other,
        )] == m.vars[lowercase(other)],
{
}

/// The text stored for a numeric variable parses back to its number, so
/// reading a numeric variable through its text agrees with the cache.
pub proof fn lemma_numeric_text_agrees(value: i64)
    ensures
        spec_parse_i64(spec_i64_text(value)) == Some(value),
{
    lemma_i64_text_parses(value);
}

/// Unquoting a quoted string gives the string back.
pub proof fn lemma_unquote_quote(s: Seq<char>)
    ensures
        spec_unquote(seq!['"'] + s + seq!['"']) == s,
{
    let q = seq!['"'] + s + seq!['"'];
    assert(q[0] == '"');
    assert(q.last() == '"');
    assert(lead_ws(q) == 0);
    assert(trail_ws(q) == 0);
    assert(spec_trim(q) =~= q);
    assert(q.subrange(1, q.len() - 1) =~= s);
}

/// Text in which the template's opening delimiter cannot start is left
/// unchanged by substitution.
pub proof fn lemma_substitute_plain(
    vars: Map<Seq<char>, Seq<char>>,
    s: Seq<char>,
    open: Seq<char>,
    close: Seq<char>,
)
    requires
        open.len() > 0,
        forall|i: int| 0 <= i < s.len() ==> #[trigger] s[i] != open[0],
    ensures
        substitute(vars, s, open, close) == s,
    decreases s.len(),
{
    if s.len() > 0 {
        let o = open.len();
        if o < s.len() && s.take(o as int) == open {
            assert(s.take(o as int)[0] == s[0]);
        }
        let t = s.drop_first();
        assert forall|i: int| 0 <= i < t.len() implies #[trigger] t[i] != open[0] by {
            assert(t[i] == s[i + 1]);
        }
        lemma_substitute_plain(vars, t, open, close);
        assert(seq![s[0]] + t =~= s);
    }
}


/// The outcome of a `#define` line on registry state `m`: the new state, or
/// the message for a line that is not a definition or has no name.
pub open spec fn define_step(m: RegistryModel, line: Seq<char>) -> Result<RegistryModel, Seq<char>> {
    match define_parts(line) {
        None => Err("Not a #define line"@),
        Some((name, value)) => if name.len() == 0 {
            Err("Empty define name"@)
        } else {
            Ok(
                match spec_parse_i64(value) {
                    Some(x) => RegistryModel {
                        vars: m.vars.insert(lowercase(name), spec_i64_text(x)),
                        ints: m.ints.insert(lowercase(name), x),
                    },
                    None => RegistryModel {
                        vars: m.vars.insert(lowercase(name), value),
                        ints: m.ints.remove(lowercase(name)),
                    },
                },
            )
        },
    }
}

/// Reading the lines `ls` (numbered from `first`) of a prepend file into
/// `m`: each line that, trimmed, starts with `#define` is processed as a
/// definition; the first that fails stops the reading. The state reached,
/// and the number and message of the failing line.
pub open spec fn prepend_lines(m: RegistryModel, ls: Seq<Seq<char>>, first: nat) -> (
    RegistryModel,
    Option<(nat, Seq<char>)>,
)
    decreases ls.len(),
{
    if ls.len() == 0 {
        (m, None)
    } else {
        let t = spec_trim(ls[0]);
        if t.len() >= 7 && t.take(7) == define_kw() {
            match define_step(m, t) {
                Err(e) => (m, Some((first, e))),
                Ok(m2) => prepend_lines(m2, ls.drop_first(), first + 1),
            }
        } else {
            prepend_lines(m, ls.drop_first(), first + 1)
        }
    }
}

impl VariableRegistry {
    /// Read the `#define` lines of a prepend file's `content`. On a line that
    /// fails, the definitions before it stay registered and its (1-based)
    /// number and message come back.
    pub fn read_prepend_content(&mut self, content: &str) -> (r: Result<(), (usize, String)>)
        ensures
            final(self)@ == prepend_lines(old(self)@, spec_lines(content@), 1).0,
            match prepend_lines(old(self)@, spec_lines(content@), 1).1 {
                None => r is Ok,
                Some((n, e)) => r matches Err((n2, e2)) && n2 == n && e2@ == e,
            },
    {
        let lines = split_lines_of(content);
        let ghost ls = spec_lines(content@);
        let mut i: usize = 0;
        assert(ls.skip(0) =~= ls);
        while i < lines.len()
            invariant
                ls == spec_lines(content@),
                i <= lines@.len(),
                lines@.len() == ls.len(),
                forall|j: int| 0 <= j < lines@.len() ==> (#[trigger] lines@[j])@ == ls[j],
                prepend_lines(self@, ls.skip(i as int), (i + 1) as nat) == prepend_lines(
                    old(self)@,
                    ls,
                    1,
                ),
            decreases lines@.len() - i,
        {
            let t = trim(lines[i]);
            let tv = chars_of(t);
            proof {
                reveal_strlit("#define");
                assert("#define"@ =~= define_kw());
                assert(ls.skip(i as int)[0] == ls[i as int]);
                assert(ls.skip(i as int).drop_first() =~= ls.skip(i + 1));
            }
            if starts_with(tv.as_slice(), "#define") {
                let ghost before = self@;
                match self.process_define_line(t) {
                    Ok(()) => {
                        assert(define_step(before, t@) == Ok::<RegistryModel, Seq<char>>(self@));
                    },
                    Err(e) => {
                        assert(define_step(before, t@) == Err::<RegistryModel, Seq<char>>(e@));
                        assert(self@ == before);
                        let ghost rest = ls.skip(i as int);
                        assert(spec_trim(rest[0]) == t@);
                        assert(t@.len() >= 7 && t@.take(7) == define_kw());
                        assert(prepend_lines(before, rest, (i + 1) as nat) == (
                            before,
                            Some((((i + 1) as nat), e@)),
                        ));
                        return Err((i + 1, e));
                    },
                }
            }
            i += 1;
        }
        assert(ls.skip(i as int) =~= Seq::<Seq<char>>::empty());
        Ok(())
    }
}

/// A registration on a [`VariableRegistry`], for stating what a history of
/// registrations does.
pub enum RegistryCall {
    /// `register(name, value)`.
    Register(Seq<char>, Seq<char>),
    /// `register_numeric(name, value)`.
    RegisterNumeric(Seq<char>, i64),
}

impl RegistryCall {
    /// The name registered.
    pub open spec fn name(self) -> Seq<char> {
        match self {
            RegistryCall::Register(n, _) => n,
            RegistryCall::RegisterNumeric(n, _) => n,
        }
    }

    /// The text registered.
    pub open spec fn text(self) -> Seq<char> {
        match self {
            RegistryCall::Register(_, v) => v,
            RegistryCall::RegisterNumeric(_, x) => spec_i64_text(x),
        }
    }
}

/// The registry state after one registration, as the methods state it.
pub open spec fn spec_registry_call(m: RegistryModel, c: RegistryCall) -> RegistryModel {
    match c {
        RegistryCall::Register(n, v) => RegistryModel {
            vars: m.vars.insert(lowercase(n), v),
            ints: m.ints.remove(lowercase(n)),
        },
        RegistryCall::RegisterNumeric(n, x) => RegistryModel {
            vars: m.vars.insert(lowercase(n), spec_i64_text(x)),
            ints: m.ints.insert(lowercase(n), x),
        },
    }
}

/// The registry state after the registrations `cs`, in order.
pub open spec fn spec_registry_run(m: RegistryModel, cs: Seq<RegistryCall>) -> RegistryModel
    decreases cs.len(),
{
    if cs.len() == 0 {
        m
    } else {
        spec_registry_call(spec_registry_run(m, cs.drop_last()), cs.last())
    }
}

/// The text of the last registration in `cs` whose name lower-cases to
/// `key`, if any.
pub open spec fn last_text(cs: Seq<RegistryCall>, key: Seq<char>) -> Option<Seq<char>>
    decreases cs.len(),
{
    if cs.len() == 0 {
        None
    } else if lowercase(cs.last().name()) == key {
        Some(cs.last().text())
    } else {
        last_text(cs.drop_last(), key)
    }
}

/// Case-insensitive lookup over any history: starting from an empty
/// registry, `get(name)` finds a value exactly when some registration used
/// a name equal to `name` ignoring case, and then it is the text of the last
/// such registration; `get_numeric` agrees with that text.
pub proof fn lemma_registry_history(cs: Seq<RegistryCall>, name: Seq<char>)
    ensures
        ({
            let m = spec_registry_run(
                RegistryModel {
                    vars: Map::<Seq<char>, Seq<char>>::empty(),
                    ints: Map::<Seq<char>, i64>::empty(),
                },
                cs,
            );
            let k = lowercase(name);
            &&& m.vars.contains_key(k) == (last_text(cs, k) is Some)
            &&& last_text(cs, k) matches Some(v) ==> m.vars[k] == v
            &&& (last_text(cs, k) is None <==> forall|i: int|
                0 <= i < cs.len() ==> lowercase(#[trigger] cs[i].name()) != k)
            &&& ints_agree(m)
        }),
    decreases cs.len(),
{
    let k = lowercase(name);
    if cs.len() > 0 {
        let p = cs.drop_last();
        lemma_registry_history(p, name);
        let m0 = RegistryModel {
            vars: Map::<Seq<char>, Seq<char>>::empty(),
            ints: Map::<Seq<char>, i64>::empty(),
        };
        let prev = spec_registry_run(m0, p);
        let m = spec_registry_run(m0, cs);
        assert(m == spec_registry_call(prev, cs.last()));
        assert forall|j: Seq<char>| #[trigger] m.ints.contains_key(j) implies m.vars.contains_key(j)
            && m.vars[j] == spec_i64_text(m.ints[j]) by {
            if j != lowercase(cs.last().name()) {
                assert(prev.ints.contains_key(j));
            }
        }
        if last_text(cs, k) is None {
            assert forall|i: int| 0 <= i < cs.len() implies lowercase(#[trigger] cs[i].name()) != k by {
                if i < p.len() {
                    assert(cs[i] == p[i]);
                }
            }
        } else {
            if lowercase(cs.last().name()) != k {
                let i = choose|i: int| 0 <= i < p.len() && lowercase(#[trigger] p[i].name()) == k;
                assert(cs[i] == p[i]);
            }
        }
    }
}

} // verus!
