//! `.env` parsing and rendering.
//!
//! A line is blank, a `#` comment, or `KEY=value`, optionally preceded by
//! `export `. Values are double-quoted (with `\n`, `\r`, `\t`, `\"` and `\\`
//! escapes), single-quoted (verbatim), or bare (an inline comment that starts
//! with `#` at the start of the value or after whitespace is dropped, and so is
//! trailing whitespace). Rendering quotes a value only where it must, so that
//! parsing what was rendered gives back the same variables.
use vstd::prelude::*;
use crate::error::{HubResult, SecretHubError};
use crate::model::{EnvValue, EnvVariable};
use crate::text::{
    append_chars, chars_eq, chars_string, find_char_from, find_from, is_ascii_alnum,
    is_ascii_alnum_char, is_ascii_letter, is_ascii_letter_char, is_space, is_space_char,
    lemma_find_from, lemma_find_from_at, lemma_trim_noop, str_chars, sub_chars, trim, trim_chars, trim_end, trim_end_chars,
};

verus! {

// ---------------------------------------------------------------------------
// Specification
// ---------------------------------------------------------------------------

/// Why a text is not a valid `.env` file.
pub enum EnvSpecError {
    /// The line with this number (from 1) has no `=`.
    Line(nat),
    /// This key is not a valid variable name.
    Key(Seq<char>),
    /// A quoted value is not closed, or ends in a lone backslash.
    Value,
}

/// Whether `e` is the error `s`.
pub open spec fn error_is(e: SecretHubError, s: EnvSpecError) -> bool {
    match s {
        EnvSpecError::Line(n) => e matches SecretHubError::InvalidEnvLine(m) && m == n,
        EnvSpecError::Key(k) => e matches SecretHubError::InvalidEnvKey(key) && key@ == k,
        EnvSpecError::Value => e is InvalidEnvValue,
    }
}

/// `s` without a final carriage return.
pub open spec fn strip_cr(s: Seq<char>) -> Seq<char> {
    if s.len() > 0 && s.last() == '\r' {
        s.drop_last()
    } else {
        s
    }
}

/// The lines of `s` as `str::lines` gives them: split at each `\n`, with a
/// `\r` just before the `\n` removed; a final `\n` does not start another line.
pub open spec fn split_lines(s: Seq<char>) -> Seq<Seq<char>>
    decreases s.len(),
{
    if s.len() == 0 {
        seq![]
    } else {
        match find_from(s, '\n', 0) {
            Some(k) => {
                proof {
                    lemma_find_from(s, '\n', 0);
                }
                seq![strip_cr(s.take(k))] + split_lines(s.skip(k + 1))
            },
            None => seq![s],
        }
    }
}

/// A character that may start a variable name.
pub open spec fn is_key_start(c: char) -> bool {
    c == '_' || is_ascii_letter(c)
}

/// A character that may follow the first character of a variable name.
pub open spec fn is_key_char(c: char) -> bool {
    c == '_' || is_ascii_alnum(c)
}

/// A valid variable name: `[A-Za-z_][A-Za-z0-9_]*`.
pub open spec fn valid_env_key(k: Seq<char>) -> bool {
    &&& k.len() > 0
    &&& is_key_start(k[0])
    &&& forall|i: int| 1 <= i < k.len() ==> is_key_char(#[trigger] k[i])
}

/// The word `export ` that may precede an assignment.
pub open spec fn export_word() -> Seq<char> {
    seq!['e', 'x', 'p', 'o', 'r', 't', ' ']
}

/// `t` without a leading `export `.
pub open spec fn strip_export(t: Seq<char>) -> Seq<char> {
    if t.len() >= 7 && t.take(7) == export_word() {
        t.skip(7)
    } else {
        t
    }
}

/// Scanning a double-quoted value from index `i`: the index of the first
/// quote that no backslash escapes.
pub open spec fn closing_quote_from(s: Seq<char>, i: int, escaped: bool) -> Option<int>
    decreases s.len() - i,
{
    if i < 0 || i >= s.len() {
        None
    } else if escaped {
        closing_quote_from(s, i + 1, false)
    } else if s[i] == '\\' {
        closing_quote_from(s, i + 1, true)
    } else if s[i] == '"' {
        Some(i)
    } else {
        closing_quote_from(s, i + 1, false)
    }
}

/// What an escape sequence `\e` stands for.
pub open spec fn unescape_pair(e: char) -> Seq<char> {
    if e == 'n' {
        seq!['\n']
    } else if e == 'r' {
        seq!['\r']
    } else if e == 't' {
        seq!['\t']
    } else if e == '"' {
        seq!['"']
    } else if e == '\\' {
        seq!['\\']
    } else {
        seq!['\\', e]
    }
}

/// The content of a double-quoted value with its escapes resolved, or `None`
/// when it ends in a lone backslash.
pub open spec fn unescape(s: Seq<char>) -> Option<Seq<char>>
    decreases s.len(),
{
    if s.len() == 0 {
        Some(seq![])
    } else if s[0] != '\\' {
        match unescape(s.drop_first()) {
            Some(r) => Some(seq![s[0]] + r),
            None => None,
        }
    } else if s.len() < 2 {
        None
    } else {
        match unescape(s.skip(2)) {
            Some(r) => Some(unescape_pair(s[1]) + r),
            None => None,
        }
    }
}

/// Whether an inline comment starts at index `i`: a `#` at the start or after
/// whitespace.
pub open spec fn comment_at(s: Seq<char>, i: int) -> bool {
    s[i] == '#' && (i == 0 || is_space(s[i - 1]))
}

/// The first index at or after `i` where an inline comment starts.
pub open spec fn comment_from(s: Seq<char>, i: int) -> Option<int>
    decreases s.len() - i,
{
    if i < 0 || i >= s.len() {
        None
    } else if comment_at(s, i) {
        Some(i)
    } else {
        comment_from(s, i + 1)
    }
}

/// `s` without its inline comment.
pub open spec fn strip_comment(s: Seq<char>) -> Seq<char> {
    match comment_from(s, 0) {
        Some(i) => s.take(i),
        None => s,
    }
}

/// The value that a trimmed value text stands for, or `None` when it is
/// malformed.
pub open spec fn parse_value_spec(v: Seq<char>) -> Option<Seq<char>> {
    if v.len() >= 2 && v[0] == '"' {
        match closing_quote_from(v, 1, false) {
            Some(end) => unescape(v.subrange(1, end)),
            None => None,
        }
    } else if v.len() >= 2 && v[0] == '\'' {
        match find_from(v, '\'', 1) {
            Some(end) => Some(v.subrange(1, end)),
            None => None,
        }
    } else {
        Some(trim_end(strip_comment(v)))
    }
}

/// What the line `line`, numbered `n`, holds: nothing (blank or comment),
/// a key and a value, or an error.
pub open spec fn parse_line_spec(line: Seq<char>, n: nat) -> Result<
    Option<(Seq<char>, Seq<char>)>,
    EnvSpecError,
> {
    let t = trim(line);
    if t.len() == 0 || t[0] == '#' {
        Ok(None)
    } else {
        let a = strip_export(t);
        match find_from(a, '=', 0) {
            None => Err(EnvSpecError::Line(n)),
            Some(eq) => {
                let key = trim(a.take(eq));
                if !valid_env_key(key) {
                    Err(EnvSpecError::Key(key))
                } else {
                    match parse_value_spec(trim(a.skip(eq + 1))) {
                        Some(v) => Ok(Some((key, v))),
                        None => Err(EnvSpecError::Value),
                    }
                }
            },
        }
    }
}

/// The variables of the lines `ls`, the first numbered `n`, or the error of
/// the first line that has one.
pub open spec fn parse_lines_spec(ls: Seq<Seq<char>>, n: nat) -> Result<
    Seq<(Seq<char>, Seq<char>)>,
    EnvSpecError,
>
    decreases ls.len(),
{
    if ls.len() == 0 {
        Ok(seq![])
    } else {
        match parse_line_spec(ls[0], n) {
            Err(e) => Err(e),
            Ok(None) => parse_lines_spec(ls.drop_first(), n + 1),
            Ok(Some(p)) => match parse_lines_spec(ls.drop_first(), n + 1) {
                Ok(ps) => Ok(seq![p] + ps),
                Err(e) => Err(e),
            },
        }
    }
}

/// The variables of a `.env` text, as key and value, in order.
pub open spec fn parse_env_spec(text: Seq<char>) -> Result<
    Seq<(Seq<char>, Seq<char>)>,
    EnvSpecError,
> {
    parse_lines_spec(split_lines(text), 1)
}

/// `acc` followed by what `r` holds, or `r`'s error.
pub open spec fn prepend_pairs(
    acc: Seq<(Seq<char>, Seq<char>)>,
    r: Result<Seq<(Seq<char>, Seq<char>)>, EnvSpecError>,
) -> Result<Seq<(Seq<char>, Seq<char>)>, EnvSpecError> {
    match r {
        Ok(ps) => Ok(acc + ps),
        Err(e) => Err(e),
    }
}

/// Whether `vars` are the literal variables `pairs`, in order.
pub open spec fn vars_are(vars: Seq<EnvVariable>, pairs: Seq<(Seq<char>, Seq<char>)>) -> bool {
    &&& vars.len() == pairs.len()
    &&& forall|i: int| 0 <= i < vars.len() ==> #[trigger] vars[i].is_literal(pairs[i].0, pairs[i].1)
}

/// A character that a value may hold without quotes.
pub open spec fn is_plain(c: char) -> bool {
    is_ascii_alnum(c) || c == '_' || c == '-' || c == '.' || c == '/' || c == ':'
}

/// How a character is written inside double quotes.
pub open spec fn escape_char(c: char) -> Seq<char> {
    if c == '\n' {
        seq!['\\', 'n']
    } else if c == '\r' {
        seq!['\\', 'r']
    } else if c == '\t' {
        seq!['\\', 't']
    } else if c == '"' {
        seq!['\\', '"']
    } else if c == '\\' {
        seq!['\\', '\\']
    } else {
        seq![c]
    }
}

/// All characters of `s` written as inside double quotes.
pub open spec fn escape_all(s: Seq<char>) -> Seq<char>
    decreases s.len(),
{
    if s.len() == 0 {
        seq![]
    } else {
        escape_char(s[0]) + escape_all(s.drop_first())
    }
}

/// How a value is written: as is when empty or made of plain characters,
/// else double-quoted with escapes.
pub open spec fn render_value_spec(v: Seq<char>) -> Seq<char> {
    if v.len() == 0 {
        seq![]
    } else if forall|i: int| 0 <= i < v.len() ==> is_plain(#[trigger] v[i]) {
        v
    } else {
        seq!['"'] + escape_all(v) + seq!['"']
    }
}

/// The line `KEY=value` with its newline.
pub open spec fn render_line(k: Seq<char>, v: Seq<char>) -> Seq<char> {
    k + seq!['='] + render_value_spec(v) + seq!['\n']
}

/// The text of a `.env` file that binds the keys to the values, in order.
pub open spec fn render_env_spec(vars: Seq<(Seq<char>, Seq<char>)>) -> Seq<char>
    decreases vars.len(),
{
    if vars.len() == 0 {
        seq![]
    } else {
        render_line(vars[0].0, vars[0].1) + render_env_spec(vars.drop_first())
    }
}

/// The views of pairs of strings.
pub open spec fn pairs_view(vars: Seq<(String, String)>) -> Seq<(Seq<char>, Seq<char>)> {
    vars.map_values(|p: (String, String)| (p.0@, p.1@))
}

// ---------------------------------------------------------------------------
// Lines
// ---------------------------------------------------------------------------

proof fn lemma_find_from_skip(s: Seq<char>, c: char, p: int, j: int)
    requires
        0 <= p <= s.len(),
        0 <= j,
    ensures
        find_from(s.skip(p), c, j) == (match find_from(s, c, p + j) {
            Some(k) => Some(k - p),
            None => None,
        }),
    decreases s.len() - p - j,
{
    if p + j < s.len() && s[p + j] != c {
        lemma_find_from_skip(s, c, p, j + 1);
    }
}

/// The views of a vector of lines.
pub open spec fn lines_view(v: Seq<Vec<char>>) -> Seq<Seq<char>> {
    v.map_values(|l: Vec<char>| l@)
}

/// Splits `text` into lines as `str::lines` does.
fn split_lines_exec(text: &Vec<char>) -> (out: Vec<Vec<char>>)
    ensures
        lines_view(out@) == split_lines(text@),
{
    let mut out: Vec<Vec<char>> = Vec::new();
    let mut pos: usize = 0;
    let len = text.len();
    assert(text@.skip(0) =~= text@);
    while pos < len
        invariant
            len == text.len(),
            pos <= len,
            split_lines(text@) == lines_view(out@) + split_lines(text@.skip(pos as int)),
        decreases len - pos,
    {
        let ghost rest = text@.skip(pos as int);
        proof {
            lemma_find_from_skip(text@, '\n', pos as int, 0);
            lemma_find_from(text@, '\n', pos as int);
        }
        match find_char_from(text, '\n', pos) {
            Some(k) => {
                let mut line = sub_chars(text, pos, k);
                if line.len() > 0 && line[line.len() - 1] == '\r' {
                    line.pop();
                }
                proof {
                    assert(rest.take(k - pos) =~= text@.subrange(pos as int, k as int));
                    assert(rest.skip(k - pos + 1) =~= text@.skip(k + 1));
                    assert(line@ == strip_cr(rest.take(k - pos)));
                }
                let ghost prev = lines_view(out@);
                out.push(line);
                proof {
                    assert(lines_view(out@) =~= prev.push(line@));
                    assert(split_lines(text@) =~= lines_view(out@) + split_lines(
                        text@.skip(k + 1),
                    ));
                }
                pos = k + 1;
            },
            None => {
                let line = sub_chars(text, pos, len);
                let ghost prev = lines_view(out@);
                out.push(line);
                proof {
                    assert(line@ =~= rest);
                    assert(lines_view(out@) =~= prev.push(line@));
                    assert(text@.skip(len as int) =~= Seq::<char>::empty());
                    assert(split_lines(text@) =~= lines_view(out@) + split_lines(
                        text@.skip(len as int),
                    ));
                }
                pos = len;
            },
        }
    }
    proof {
        assert(text@.skip(len as int) =~= Seq::<char>::empty());
        assert(split_lines(text@) =~= lines_view(out@));
    }
    out
}

// ---------------------------------------------------------------------------
// Keys
// ---------------------------------------------------------------------------

/// Whether `key` is a valid variable name.
fn valid_key_chars(key: &Vec<char>) -> (r: bool)
    ensures
        r == valid_env_key(key@),
{
    if key.len() == 0 {
        return false;
    }
    let first = key[0];
    if !(first == '_' || is_ascii_letter_char(first)) {
        return false;
    }
    let mut i: usize = 1;
    while i < key.len()
        invariant
            1 <= i <= key.len(),
            forall|j: int| 1 <= j < i ==> is_key_char(#[trigger] key@[j]),
        decreases key.len() - i,
    {
        let c = key[i];
        if !(c == '_' || is_ascii_alnum_char(c)) {
            return false;
        }
        i = i + 1;
    }
    true
}

/// Checks that `key` is a valid variable name: a letter or `_`, then letters,
/// digits and `_`.
pub fn validate_key(key: &str) -> (r: HubResult<()>)
    ensures
        r is Ok <==> valid_env_key(key@),
        r matches Err(e) ==> e matches SecretHubError::InvalidEnvKey(k) && k@ == key@,
{
    let chars = str_chars(key);
    if valid_key_chars(&chars) {
        Ok(())
    } else {
        Err(SecretHubError::InvalidEnvKey(chars_string(&chars)))
    }
}

// ---------------------------------------------------------------------------
// Values
// ---------------------------------------------------------------------------

proof fn lemma_closing_quote_bounds(s: Seq<char>, i: int, escaped: bool)
    requires
        0 <= i,
    ensures
        closing_quote_from(s, i, escaped) matches Some(j) ==> i <= j < s.len(),
    decreases s.len() - i,
{
    if i < s.len() {
        lemma_closing_quote_bounds(s, i + 1, false);
        lemma_closing_quote_bounds(s, i + 1, true);
    }
}

/// The index of the quote that closes the double-quoted `value`.
fn find_closing_double_quote(value: &Vec<char>) -> (r: Option<usize>)
    ensures
        match r {
            Some(i) => closing_quote_from(value@, 1, false) == Some(i as int),
            None => closing_quote_from(value@, 1, false) is None,
        },
{
    let mut escaped = false;
    let mut i: usize = 1;
    while i < value.len()
        invariant
            1 <= i,
            closing_quote_from(value@, 1, false) == closing_quote_from(value@, i as int, escaped),
        decreases value.len() - i,
    {
        let ch = value[i];
        if escaped {
            escaped = false;
        } else if ch == '\\' {
            escaped = true;
        } else if ch == '"' {
            return Some(i);
        }
        i = i + 1;
    }
    None
}

/// Appends `a`, and then `b` when there is one, to `out`.
fn push_seq(out: &mut Vec<char>, a: char, b: Option<char>)
    ensures
        final(out)@ == match b {
            Some(c) => old(out)@.push(a).push(c),
            None => old(out)@.push(a),
        },
{
    out.push(a);
    if let Some(c) = b {
        out.push(c);
    }
}

/// Resolves the escapes of the content of a double-quoted value.
fn unescape_double_quoted(value: &Vec<char>) -> (r: HubResult<Vec<char>>)
    ensures
        match unescape(value@) {
            Some(u) => r matches Ok(out) && out@ == u,
            None => r matches Err(e) && e is InvalidEnvValue,
        },
{
    let mut output: Vec<char> = Vec::new();
    let mut i: usize = 0;
    assert(value@.skip(0) =~= value@);
    while i < value.len()
        invariant
            i <= value.len(),
            unescape(value@) == (match unescape(value@.skip(i as int)) {
                Some(u) => Some(output@ + u),
                None => None,
            }),
        decreases value.len() - i,
    {
        let ghost rest = value@.skip(i as int);
        let ch = value[i];
        if ch != '\\' {
            proof {
                assert(rest.drop_first() =~= value@.skip(i + 1));
                if let Some(u) = unescape(value@.skip(i + 1)) {
                    assert(output@.push(ch) + u =~= output@ + (seq![ch] + u));
                }
            }
            output.push(ch);
            i = i + 1;
        } else {
            if i + 1 >= value.len() {
                return Err(SecretHubError::InvalidEnvValue);
            }
            let escaped = value[i + 1];
            proof {
                assert(rest.skip(2) =~= value@.skip(i + 2));
            }
            let ghost before = output@;
            if escaped == 'n' {
                push_seq(&mut output, '\n', None);
            } else if escaped == 'r' {
                push_seq(&mut output, '\r', None);
            } else if escaped == 't' {
                push_seq(&mut output, '\t', None);
            } else if escaped == '"' {
                push_seq(&mut output, '"', None);
            } else if escaped == '\\' {
                push_seq(&mut output, '\\', None);
            } else {
                push_seq(&mut output, '\\', Some(escaped));
            }
            proof {
                assert(output@ =~= before + unescape_pair(escaped));
                if let Some(u) = unescape(value@.skip(i + 2)) {
                    assert(output@ + u =~= before + (unescape_pair(escaped) + u));
                }
            }
            i = i + 2;
        }
    }
    proof {
        assert(value@.skip(value.len() as int) =~= Seq::<char>::empty());
        assert(output@ + Seq::<char>::empty() =~= output@);
    }
    Ok(output)
}

/// `value` without an inline comment: everything from the first `#` that
/// starts the value or follows whitespace is dropped.
fn strip_inline_comment(value: &Vec<char>) -> (out: Vec<char>)
    ensures
        out@ == strip_comment(value@),
{
    let mut i: usize = 0;
    while i < value.len()
        invariant
            comment_from(value@, 0) == comment_from(value@, i as int),
        decreases value.len() - i,
    {
        if value[i] == '#' && (i == 0 || is_space_char(value[i - 1])) {
            return sub_chars(value, 0, i);
        }
        i = i + 1;
    }
    sub_chars(value, 0, value.len())
}

/// The value that the trimmed text `value` stands for.
fn parse_value(value: &Vec<char>) -> (r: HubResult<Vec<char>>)
    ensures
        match parse_value_spec(value@) {
            Some(v) => r matches Ok(out) && out@ == v,
            None => r matches Err(e) && e is InvalidEnvValue,
        },
{
    if value.len() >= 2 && value[0] == '"' {
        match find_closing_double_quote(value) {
            None => Err(SecretHubError::InvalidEnvValue),
            Some(end) => {
                proof {
                    lemma_closing_quote_bounds(value@, 1, false);
                }
                let inner = sub_chars(value, 1, end);
                unescape_double_quoted(&inner)
            },
        }
    } else if value.len() >= 2 && value[0] == '\'' {
        match find_char_from(value, '\'', 1) {
            None => Err(SecretHubError::InvalidEnvValue),
            Some(end) => {
                proof {
                    lemma_find_from(value@, '\'', 1);
                }
                Ok(sub_chars(value, 1, end))
            },
        }
    } else {
        let stripped = strip_inline_comment(value);
        Ok(trim_end_chars(&stripped))
    }
}

// ---------------------------------------------------------------------------
// Parsing
// ---------------------------------------------------------------------------

/// `t` without a leading `export `.
fn strip_export_chars(t: &Vec<char>) -> (out: Vec<char>)
    ensures
        out@ == strip_export(t@),
{
    let word = vec!['e', 'x', 'p', 'o', 'r', 't', ' '];
    if t.len() >= 7 {
        let head = sub_chars(t, 0, 7);
        proof {
            assert(head@ =~= t@.take(7));
            assert(word@ =~= export_word());
        }
        if chars_eq(&head, &word) {
            return sub_chars(t, 7, t.len());
        }
    }
    sub_chars(t, 0, t.len())
}

/// What the line `line`, numbered `n`, holds.
fn parse_line(line: &Vec<char>, n: usize) -> (r: HubResult<Option<(Vec<char>, Vec<char>)>>)
    ensures
        match parse_line_spec(line@, n as nat) {
            Ok(None) => r matches Ok(None),
            Ok(Some(p)) => r matches Ok(Some(q)) && q.0@ == p.0 && q.1@ == p.1,
            Err(e) => r matches Err(err) && error_is(err, e),
        },
{
    let trimmed = trim_chars(line);
    if trimmed.len() == 0 || trimmed[0] == '#' {
        return Ok(None);
    }
    let assignment = strip_export_chars(&trimmed);
    let eq = match find_char_from(&assignment, '=', 0) {
        None => return Err(SecretHubError::InvalidEnvLine(n)),
        Some(eq) => eq,
    };
    proof {
        lemma_find_from(assignment@, '=', 0);
    }
    let raw_key = sub_chars(&assignment, 0, eq);
    let key = trim_chars(&raw_key);
    if !valid_key_chars(&key) {
        return Err(SecretHubError::InvalidEnvKey(chars_string(&key)));
    }
    let raw_value = sub_chars(&assignment, eq + 1, assignment.len());
    let value_text = trim_chars(&raw_value);
    proof {
        assert(raw_key@ =~= assignment@.take(eq as int));
        assert(raw_value@ =~= assignment@.skip(eq + 1));
    }
    let value = parse_value(&value_text)?;
    Ok(Some((key, value)))
}

/// Parses a `.env` text into its variables, in order, each bound to a
/// literal value.
///
/// Blank lines and lines starting with `#` are skipped. A line without `=`
/// gives `InvalidEnvLine` with its number (from 1), an invalid name gives
/// `InvalidEnvKey`, and a malformed quoted value gives `InvalidEnvValue`; the
/// first line in error decides.
pub fn parse_env(text: &str) -> (r: HubResult<Vec<EnvVariable>>)
    ensures
        match parse_env_spec(text@) {
            Ok(pairs) => r matches Ok(vars) && vars_are(vars@, pairs),
            Err(e) => r matches Err(err) && error_is(err, e),
        },
{
    let chars = str_chars(text);
    let lines = split_lines_exec(&chars);
    let ghost ls = lines_view(lines@);
    let mut variables: Vec<EnvVariable> = Vec::new();
    let ghost mut acc: Seq<(Seq<char>, Seq<char>)> = seq![];
    let mut index: usize = 0;
    assert(ls.skip(0) =~= ls);
    while index < lines.len()
        invariant
            ls == lines_view(lines@),
            ls == split_lines(text@),
            index <= lines.len(),
            vars_are(variables@, acc),
            parse_env_spec(text@) == prepend_pairs(
                acc,
                parse_lines_spec(ls.skip(index as int), (index + 1) as nat),
            ),
        decreases lines.len() - index,
    {
        let line_number = index + 1;
        let ghost rest = ls.skip(index as int);
        proof {
            assert(rest.drop_first() =~= ls.skip(index + 1));
            assert(rest[0] == lines@[index as int]@);
        }
        let parsed = parse_line(&lines[index], line_number);
        match parsed {
            Err(e) => {
                return Err(e);
            },
            Ok(None) => {},
            Ok(Some((key, value))) => {
                let ghost p = (key@, value@);
                let ghost prev = variables@;
                variables.push(EnvVariable { key: chars_string(&key), value: EnvValue::literal(chars_string(&value)) });
                proof {
                    let tail = parse_lines_spec(ls.skip(index + 1), (index + 2) as nat);
                    if let Ok(ps) = tail {
                        assert(acc + (seq![p] + ps) =~= (acc.push(p)) + ps);
                    }
                    assert forall|i: int| 0 <= i < variables@.len() implies #[trigger] variables@[i].is_literal(acc.push(p)[i].0, acc.push(p)[i].1) by {
                        if i < prev.len() {
                            assert(variables@[i] == prev[i]);
                        }
                    }
                    acc = acc.push(p);
                }
            },
        }
        index = index + 1;
    }
    proof {
        assert(ls.skip(lines.len() as int) =~= Seq::<Seq<char>>::empty());
        assert(acc + Seq::<(Seq<char>, Seq<char>)>::empty() =~= acc);
    }
    Ok(variables)
}

// ---------------------------------------------------------------------------
// Rendering
// ---------------------------------------------------------------------------

/// Appends how `c` is written inside double quotes.
fn push_escaped(out: &mut Vec<char>, c: char)
    ensures
        final(out)@ == old(out)@ + escape_char(c),
{
    let ghost before = out@;
    if c == '\n' {
        push_seq(out, '\\', Some('n'));
    } else if c == '\r' {
        push_seq(out, '\\', Some('r'));
    } else if c == '\t' {
        push_seq(out, '\\', Some('t'));
    } else if c == '"' {
        push_seq(out, '\\', Some('"'));
    } else if c == '\\' {
        push_seq(out, '\\', Some('\\'));
    } else {
        push_seq(out, c, None);
    }
    assert(out@ =~= before + escape_char(c));
}

/// How `value` is written in a `.env` file.
fn render_value(value: &Vec<char>) -> (out: Vec<char>)
    ensures
        out@ == render_value_spec(value@),
{
    if value.len() == 0 {
        return Vec::new();
    }
    let mut all_plain = true;
    let mut i: usize = 0;
    while i < value.len()
        invariant
            i <= value.len(),
            all_plain == forall|j: int| 0 <= j < i ==> is_plain(#[trigger] value@[j]),
        decreases value.len() - i,
    {
        let c = value[i];
        let plain = is_ascii_alnum_char(c) || c == '_' || c == '-' || c == '.' || c == '/' || c
            == ':';
        if !plain {
            all_plain = false;
        }
        i = i + 1;
    }
    if all_plain {
        return sub_chars(value, 0, value.len());
    }
    let mut output: Vec<char> = Vec::new();
    output.push('"');
    let mut k: usize = 0;
    assert(value@.skip(0) =~= value@);
    while k < value.len()
        invariant
            k <= value.len(),
            seq!['"'] + escape_all(value@) == output@ + escape_all(value@.skip(k as int)),
        decreases value.len() - k,
    {
        proof {
            assert(value@.skip(k as int).drop_first() =~= value@.skip(k + 1));
        }
        let ghost before = output@;
        push_escaped(&mut output, value[k]);
        proof {
            assert(before + escape_all(value@.skip(k as int)) =~= output@ + escape_all(
                value@.skip(k + 1),
            ));
        }
        k = k + 1;
    }
    proof {
        assert(value@.skip(value.len() as int) =~= Seq::<char>::empty());
        assert(output@ + Seq::<char>::empty() =~= output@);
    }
    output.push('"');
    output
}

/// Renders the variables as a `.env` text: one `KEY=value` line per pair,
/// in order, each ending in a newline, with values quoted where needed.
pub fn render_env(variables: &[(String, String)]) -> (out: String)
    ensures
        out@ == render_env_spec(pairs_view(variables@)),
{
    let ghost vs = pairs_view(variables@);
    let mut output: Vec<char> = Vec::new();
    let mut i: usize = 0;
    assert(vs.skip(0) =~= vs);
    while i < variables.len()
        invariant
            vs == pairs_view(variables@),
            i <= variables.len(),
            render_env_spec(vs) == output@ + render_env_spec(vs.skip(i as int)),
        decreases variables.len() - i,
    {
        let key = str_chars(variables[i].0.as_str());
        let value = str_chars(variables[i].1.as_str());
        let rendered = render_value(&value);
        let ghost before = output@;
        append_chars(&mut output, &key);
        output.push('=');
        append_chars(&mut output, &rendered);
        output.push('\n');
        proof {
            assert(vs.skip(i as int).drop_first() =~= vs.skip(i + 1));
            assert(vs[i as int] == (variables@[i as int].0@, variables@[i as int].1@));
            assert(output@ =~= before + render_line(key@, value@));
            assert(before + render_env_spec(vs.skip(i as int)) =~= output@ + render_env_spec(
                vs.skip(i + 1),
            ));
        }
        i = i + 1;
    }
    proof {
        assert(vs.skip(variables.len() as int) =~= Seq::<(Seq<char>, Seq<char>)>::empty());
        assert(output@ + Seq::<char>::empty() =~= output@);
    }
    chars_string(&output)
}

// ---------------------------------------------------------------------------
// Parsing what was rendered
// ---------------------------------------------------------------------------

proof fn lemma_comment_none(s: Seq<char>, i: int)
    requires
        0 <= i,
        forall|j: int| 0 <= j < s.len() ==> s[j] != '#',
    ensures
        comment_from(s, i) is None,
    decreases s.len() - i,
{
    if i < s.len() {
        lemma_comment_none(s, i + 1);
    }
}

proof fn lemma_escape_all_len(v: Seq<char>)
    ensures
        escape_all(v).len() >= v.len(),
        forall|j: int| 0 <= j < escape_all(v).len() ==> #[trigger] escape_all(v)[j] != '\n'
            && escape_all(v)[j] != '\r',
    decreases v.len(),
{
    if v.len() > 0 {
        lemma_escape_all_len(v.drop_first());
        let e1 = escape_char(v[0]);
        let rest = escape_all(v.drop_first());
        assert forall|j: int| 0 <= j < escape_all(v).len() implies #[trigger] escape_all(v)[j]
            != '\n' && escape_all(v)[j] != '\r' by {
            if j >= e1.len() {
                assert(escape_all(v)[j] == rest[j - e1.len()]);
            }
        }
    }
}

proof fn lemma_closing_quote_of_escaped(s: Seq<char>, p: int, w: Seq<char>)
    requires
        0 <= p,
        p + escape_all(w).len() < s.len(),
        s.subrange(p, p + escape_all(w).len()) == escape_all(w),
        s[p + escape_all(w).len()] == '"',
    ensures
        closing_quote_from(s, p, false) == Some(p + escape_all(w).len()),
    decreases w.len(),
{
    if w.len() > 0 {
        let c = w[0];
        let e1 = escape_char(c);
        let rest = escape_all(w.drop_first());
        assert(escape_all(w) == e1 + rest);
        assert(s[p] == escape_all(w)[0]);
        assert(s.subrange(p + e1.len(), p + e1.len() + rest.len()) =~= rest) by {
            assert forall|j: int| 0 <= j < rest.len() implies s.subrange(
                p + e1.len(),
                p + e1.len() + rest.len(),
            )[j] == rest[j] by {
                assert(s[p + e1.len() + j] == escape_all(w)[e1.len() + j]);
            }
        }
        lemma_closing_quote_of_escaped(s, p + e1.len(), w.drop_first());
        if e1.len() == 2 {
            assert(s[p] == '\\');
            assert(closing_quote_from(s, p + 1, true) == closing_quote_from(s, p + 2, false));
        } else {
            assert(c != '\\' && c != '"');
            assert(s[p] == c);
        }
    } else {
        assert(s[p] == '"');
    }
}

proof fn lemma_unescape_escaped(v: Seq<char>)
    ensures
        unescape(escape_all(v)) == Some(v),
    decreases v.len(),
{
    if v.len() > 0 {
        let c = v[0];
        let e1 = escape_char(c);
        let rest = escape_all(v.drop_first());
        lemma_unescape_escaped(v.drop_first());
        let e = escape_all(v);
        assert(e == e1 + rest);
        if e1.len() == 2 {
            assert(e.skip(2) =~= rest);
        } else {
            assert(e.drop_first() =~= rest);
        }
        assert(seq![c] + v.drop_first() =~= v);
    }
}

proof fn lemma_parse_rendered_value(v: Seq<char>)
    ensures
        parse_value_spec(render_value_spec(v)) == Some(v),
        trim(render_value_spec(v)) == render_value_spec(v),
        render_value_spec(v).len() > 0 ==> render_value_spec(v).last() == '"' || is_plain(
            render_value_spec(v).last(),
        ),
        forall|j: int|
            0 <= j < render_value_spec(v).len() ==> #[trigger] render_value_spec(v)[j] != '\n'
                && render_value_spec(v)[j] != '\r' && render_value_spec(v)[j] != '=' || (
            render_value_spec(v)[j] == '=' && !(forall|i: int|
                0 <= i < v.len() ==> is_plain(#[trigger] v[i]))),
{
    let rv = render_value_spec(v);
    if v.len() == 0 {
        assert(comment_from(rv, 0) is None);
    } else if forall|i: int| 0 <= i < v.len() ==> is_plain(#[trigger] v[i]) {
        assert(is_plain(v[0]));
        assert(is_plain(v[v.len() - 1]));
        lemma_comment_none(v, 0);
    } else {
        lemma_escape_all_len(v);
        let e = escape_all(v);
        assert(rv.subrange(1, 1 + e.len() as int) =~= e);
        lemma_closing_quote_of_escaped(rv, 1, v);
        assert(rv.subrange(1, 1 + e.len() as int) =~= e);
        lemma_unescape_escaped(v);
        assert forall|j: int| 0 <= j < rv.len() implies #[trigger] rv[j] != '\n' && rv[j]
            != '\r' by {
            if 1 <= j < 1 + e.len() {
                assert(rv[j] == e[j - 1]);
            }
        }
    }
}

proof fn lemma_split_first_line(l: Seq<char>, rest: Seq<char>)
    requires
        forall|j: int| 0 <= j < l.len() ==> #[trigger] l[j] != '\n',
        l.len() > 0 ==> l.last() != '\r',
    ensures
        split_lines(l + seq!['\n'] + rest) == seq![l] + split_lines(rest),
{
    let s = l + seq!['\n'] + rest;
    lemma_find_from_at(s, '\n', 0, l.len() as int);
    assert(s.take(l.len() as int) =~= l);
    assert(s.skip(l.len() as int + 1) =~= rest);
}

proof fn lemma_parse_rendered_line(k: Seq<char>, v: Seq<char>, n: nat)
    requires
        valid_env_key(k),
    ensures
        parse_line_spec(k + seq!['='] + render_value_spec(v), n) == Ok::<_, EnvSpecError>(
            Some::<(Seq<char>, Seq<char>)>((k, v)),
        ),
{
    let rv = render_value_spec(v);
    let l = k + seq!['='] + rv;
    let m = k.len() as int;
    lemma_parse_rendered_value(v);
    assert(k[m - 1] == k.last());
    assert(is_key_start(k[0]));
    if m - 1 >= 1 {
        assert(is_key_char(k[m - 1]));
    }
    if rv.len() > 0 {
        assert(l.last() == rv.last());
    }
    lemma_trim_noop(l);
    assert(l[0] == k[0]);
    // no leading `export `
    if l.len() >= 7 && l.take(7) == export_word() {
        if m >= 7 {
            assert(l.take(7)[6] == k[6]);
            assert(is_key_char(k[6]));
        } else {
            assert(l.take(7)[m] == l[m]);
            assert(l[m] == '=');
        }
    }
    assert(strip_export(l) == l);
    assert forall|j: int| 0 <= j < m implies l[j] != '=' by {
        assert(l[j] == k[j]);
        if j > 0 {
            assert(is_key_char(k[j]));
        }
    }
    lemma_find_from_at(l, '=', 0, m);
    assert(l.take(m) =~= k);
    lemma_trim_noop(k);
    assert(l.skip(m + 1) =~= rv);
}

proof fn lemma_parse_rendered_lines(vars: Seq<(Seq<char>, Seq<char>)>, n: nat)
    requires
        forall|i: int| 0 <= i < vars.len() ==> valid_env_key(#[trigger] vars[i].0),
    ensures
        parse_lines_spec(split_lines(render_env_spec(vars)), n) == Ok::<_, EnvSpecError>(vars),
    decreases vars.len(),
{
    if vars.len() == 0 {
        assert(split_lines(seq![]) =~= Seq::<Seq<char>>::empty());
        assert(vars =~= Seq::<(Seq<char>, Seq<char>)>::empty());
    } else {
        let k = vars[0].0;
        let v = vars[0].1;
        assert(valid_env_key(vars[0].0));
        let rv = render_value_spec(v);
        let l = k + seq!['='] + rv;
        let tail = vars.drop_first();
        assert forall|i: int| 0 <= i < tail.len() implies valid_env_key(#[trigger] tail[i].0) by {
            assert(tail[i] == vars[i + 1]);
            assert(valid_env_key(vars[i + 1].0));
        }
        lemma_parse_rendered_lines(tail, n + 1);
        lemma_parse_rendered_value(v);
        assert forall|j: int| 0 <= j < l.len() implies #[trigger] l[j] != '\n' by {
            if j < k.len() {
                assert(l[j] == k[j]);
                if j > 0 {
                    assert(is_key_char(k[j]));
                } else {
                    assert(is_key_start(k[0]));
                }
            } else if j > k.len() {
                assert(l[j] == rv[j - k.len() - 1]);
            }
        }
        if rv.len() > 0 {
            assert(l.last() == rv.last());
        }
        assert(render_env_spec(vars) =~= l + seq!['\n'] + render_env_spec(tail));
        lemma_split_first_line(l, render_env_spec(tail));
        let ls = split_lines(render_env_spec(vars));
        assert(ls[0] == l);
        assert(ls.drop_first() =~= split_lines(render_env_spec(tail)));
        lemma_parse_rendered_line(k, v, n);
        assert(parse_line_spec(ls[0], n) == Ok::<_, EnvSpecError>(
            Some::<(Seq<char>, Seq<char>)>((k, v)),
        ));
        assert(parse_lines_spec(ls.drop_first(), n + 1) == Ok::<_, EnvSpecError>(tail));
        assert(seq![(k, v)] + tail =~= vars);
        assert(vars[0] == (k, v));
    }
}

/// Parsing what `render_env` wrote gives back the same variables, in the same
/// order, each bound to its value as a literal, whenever every key is a valid
/// variable name.
pub proof fn law_parse_render_roundtrip(vars: Seq<(Seq<char>, Seq<char>)>)
    requires
        forall|i: int| 0 <= i < vars.len() ==> valid_env_key(#[trigger] vars[i].0),
    ensures
        parse_env_spec(render_env_spec(vars)) == Ok::<_, EnvSpecError>(vars),
{
    lemma_parse_rendered_lines(vars, 1);
}

/// A single-quoted value is its content, verbatim: nothing inside the
/// quotes is trimmed, unescaped or cut at a `#`.
pub proof fn law_single_quoted_verbatim(c: Seq<char>)
    requires
        forall|j: int| 0 <= j < c.len() ==> #[trigger] c[j] != '\'',
    ensures
        parse_value_spec(seq!['\''] + c + seq!['\'']) == Some(c),
{
    let v = seq!['\''] + c + seq!['\''];
    assert forall|j: int| 1 <= j < c.len() + 1 implies v[j] != '\'' by {
        assert(v[j] == c[j - 1]);
    }
    lemma_find_from_at(v, '\'', 1, c.len() as int + 1);
    assert(v.subrange(1, c.len() as int + 1) =~= c);
}

/// A `.env` line `KEY='content'` binds `KEY` to the content verbatim,
/// spaces included, for any content without a quote or a line break.
pub proof fn law_single_quoted_line(k: Seq<char>, c: Seq<char>)
    requires
        valid_env_key(k),
        forall|j: int| 0 <= j < c.len() ==> #[trigger] c[j] != '\'' && c[j] != '\n',
    ensures
        parse_env_spec(k + seq!['='] + seq!['\''] + c + seq!['\''] + seq!['\n']) == Ok::<
            _,
            EnvSpecError,
        >(seq![(k, c)]),
{
    let q = seq!['\''] + c + seq!['\''];
    let l = k + seq!['='] + q;
    let m = k.len() as int;
    law_single_quoted_verbatim(c);
    assert(k[m - 1] == k.last());
    assert(is_key_start(k[0]));
    if m - 1 >= 1 {
        assert(is_key_char(k[m - 1]));
    }
    assert(l.last() == '\'');
    lemma_trim_noop(l);
    assert(l[0] == k[0]);
    if l.len() >= 7 && l.take(7) == export_word() {
        if m >= 7 {
            assert(l.take(7)[6] == k[6]);
            assert(is_key_char(k[6]));
        } else {
            assert(l.take(7)[m] == l[m]);
            assert(l[m] == '=');
        }
    }
    assert(strip_export(l) == l);
    assert forall|j: int| 0 <= j < m implies l[j] != '=' by {
        assert(l[j] == k[j]);
        if j > 0 {
            assert(is_key_char(k[j]));
        }
    }
    lemma_find_from_at(l, '=', 0, m);
    assert(l.take(m) =~= k);
    lemma_trim_noop(k);
    assert(l.skip(m + 1) =~= q);
    lemma_trim_noop(q);
    assert(parse_line_spec(l, 1) == Ok::<_, EnvSpecError>(Some::<(Seq<char>, Seq<char>)>((k, c))));
    assert forall|j: int| 0 <= j < l.len() implies #[trigger] l[j] != '\n' by {
        if j < m {
            assert(l[j] == k[j]);
            if j > 0 {
                assert(is_key_char(k[j]));
            }
        } else if j > m + 1 && j < l.len() - 1 {
            assert(l[j] == c[j - m - 2]);
        }
    }
    let text = k + seq!['='] + seq!['\''] + c + seq!['\''] + seq!['\n'];
    assert(text =~= l + seq!['\n'] + Seq::<char>::empty());
    lemma_split_first_line(l, Seq::<char>::empty());
    assert(split_lines(Seq::<char>::empty()) == Seq::<Seq<char>>::empty());
    let ls = split_lines(text);
    assert(ls =~= seq![l]);
    assert(ls.drop_first() =~= Seq::<Seq<char>>::empty());
    assert(parse_lines_spec(ls.drop_first(), 2) == Ok::<_, EnvSpecError>(Seq::<(Seq<char>, Seq<char>)>::empty()));
    assert(seq![(k, c)] + Seq::<(Seq<char>, Seq<char>)>::empty() =~= seq![(k, c)]);
}

} // verus!

