//! The shell-like argument tokenizer of the REPL: one input line becomes a
//! sequence of argument tokens, with single- and double-quoted strings and
//! backslash escapes inside quotes.

use vstd::prelude::*;

use crate::errors::ParseError;
use crate::text::push_char;

verus! {

/// Argument-separating whitespace: space or tab.
pub open spec fn is_ws(c: char) -> bool {
    c == ' ' || c == '\t'
}

/// A quote character that can delimit an argument.
pub open spec fn is_quote(c: char) -> bool {
    c == '"' || c == '\''
}

/// A character that a backslash may escape inside a quoted argument.
pub open spec fn is_escapable(c: char) -> bool {
    c == '\\' || c == '"' || c == '\''
}

/// Parse the inside of a quoted argument delimited by `q`, the characters
/// after the opening quote: the unescaped token and what follows the
/// closing quote. `None` when the quote is unterminated or a backslash is
/// followed by anything but `\`, `"` or `'`.
pub open spec fn spec_quoted(s: Seq<char>, q: char) -> Option<(Seq<char>, Seq<char>)>
    decreases s.len(),
{
    if s.len() == 0 {
        None
    } else if s[0] == q {
        Some((Seq::empty(), s.drop_first()))
    } else if s[0] == '\\' {
        if s.len() >= 2 && is_escapable(s[1]) {
            match spec_quoted(s.skip(2), q) {
                Some((t, rest)) => Some((seq![s[1]] + t, rest)),
                None => None,
            }
        } else {
            None
        }
    } else {
        match spec_quoted(s.drop_first(), q) {
            Some((t, rest)) => Some((seq![s[0]] + t, rest)),
            None => None,
        }
    }
}

/// Parse a bare argument: the maximal run of non-whitespace characters at
/// the front, and what follows it. Quote characters after the first
/// position have no special meaning in a bare argument.
pub open spec fn spec_bare(s: Seq<char>) -> (Seq<char>, Seq<char>)
    decreases s.len(),
{
    if s.len() == 0 || is_ws(s[0]) {
        (Seq::empty(), s)
    } else {
        let (t, rest) = spec_bare(s.drop_first());
        (seq![s[0]] + t, rest)
    }
}

/// Drop the maximal run of whitespace at the front.
pub open spec fn spec_skip_ws(s: Seq<char>) -> Seq<char>
    decreases s.len(),
{
    if s.len() == 0 || !is_ws(s[0]) {
        s
    } else {
        spec_skip_ws(s.drop_first())
    }
}

/// Parse one argument at the front of `s`: a quoted argument when `s`
/// opens with a quote character (which then must close properly), else a
/// bare argument. `None` at the end of input or at whitespace.
pub open spec fn spec_arg(s: Seq<char>) -> Option<(Seq<char>, Seq<char>)> {
    if s.len() == 0 || is_ws(s[0]) {
        None
    } else if is_quote(s[0]) {
        spec_quoted(s.drop_first(), s[0])
    } else {
        Some(spec_bare(s))
    }
}

/// A successfully parsed quoted argument consumes at least the closing
/// quote: what remains is shorter than what was given.
proof fn lemma_spec_quoted_shrinks(s: Seq<char>, q: char)
    ensures
        spec_quoted(s, q) matches Some((t, rest)) ==> rest.len() < s.len(),
    decreases s.len(),
{
    if s.len() == 0 {
    } else if s[0] == q {
    } else if s[0] == '\\' {
        if s.len() >= 2 && is_escapable(s[1]) {
            lemma_spec_quoted_shrinks(s.skip(2), q);
        }
    } else {
        lemma_spec_quoted_shrinks(s.drop_first(), q);
    }
}

/// A bare argument leaves a suffix of what was given, and consumes at
/// least one character when one is there to consume.
proof fn lemma_spec_bare_shrinks(s: Seq<char>)
    ensures
        spec_bare(s).1.len() <= s.len(),
        s.len() > 0 && !is_ws(s[0]) ==> spec_bare(s).1.len() < s.len(),
    decreases s.len(),
{
    if s.len() == 0 || is_ws(s[0]) {
    } else {
        lemma_spec_bare_shrinks(s.drop_first());
    }
}

/// Skipping whitespace leaves a suffix of what was given.
proof fn lemma_spec_skip_ws_shrinks(s: Seq<char>)
    ensures
        spec_skip_ws(s).len() <= s.len(),
    decreases s.len(),
{
    if s.len() == 0 || !is_ws(s[0]) {
    } else {
        lemma_spec_skip_ws_shrinks(s.drop_first());
    }
}

/// A successfully parsed argument consumes at least one character.
proof fn lemma_spec_arg_shrinks(s: Seq<char>)
    ensures
        spec_arg(s) matches Some((t, rest)) ==> rest.len() < s.len(),
{
    if s.len() == 0 || is_ws(s[0]) {
    } else if is_quote(s[0]) {
        lemma_spec_quoted_shrinks(s.drop_first(), s[0]);
    } else {
        lemma_spec_bare_shrinks(s);
    }
}

/// Parse a non-empty argument list: one argument, then repeatedly one or
/// more whitespace characters and a further argument, consuming all of
/// `s`. `None` when `s` cannot be consumed whole this way — in particular
/// on leading or trailing whitespace, an unterminated quote, a bad escape,
/// or a closing quote not followed by whitespace.
pub open spec fn spec_args(s: Seq<char>) -> Option<Seq<Seq<char>>>
    decreases s.len(),
    via spec_args_decreases
{
    match spec_arg(s) {
        None => None,
        Some((t, rest)) => {
            if rest.len() == 0 {
                Some(seq![t])
            } else if is_ws(rest[0]) {
                let rest2 = spec_skip_ws(rest);
                if rest2.len() == 0 {
                    None
                } else {
                    match spec_args(rest2) {
                        Some(ts) => Some(seq![t] + ts),
                        None => None,
                    }
                }
            } else {
                None
            }
        },
    }
}

#[via_fn]
proof fn spec_args_decreases(s: Seq<char>) {
    lemma_spec_arg_shrinks(s);
    match spec_arg(s) {
        Some((t, rest)) => lemma_spec_skip_ws_shrinks(rest),
        None => (),
    }
}

/// Tokenize a whole line: the empty line is the empty argument list; any
/// other line must parse as a whitespace-separated argument list that
/// consumes the line entirely.
pub open spec fn spec_tokenize(s: Seq<char>) -> Option<Seq<Seq<char>>> {
    if s.len() == 0 {
        Some(Seq::empty())
    } else {
        spec_args(s)
    }
}

/// Is `c` argument-separating whitespace?
fn is_ws_char(c: char) -> (r: bool)
    ensures
        r == is_ws(c),
{
    c == ' ' || c == '\t'
}

/// Is `c` a quote character?
fn is_quote_char(c: char) -> (r: bool)
    ensures
        r == is_quote(c),
{
    c == '"' || c == '\''
}

/// May a backslash escape `c`?
fn is_escapable_char(c: char) -> (r: bool)
    ensures
        r == is_escapable(c),
{
    c == '\\' || c == '"' || c == '\''
}

/// A partially scanned quoted argument: the characters unescaped so far,
/// in front of whatever the rest of the input yields.
pub open spec fn compose_quoted(prefix: Seq<char>, inner: Option<(Seq<char>, Seq<char>)>) -> Option<
    (Seq<char>, Seq<char>),
> {
    match inner {
        Some((t, rest)) => Some((prefix + t, rest)),
        None => None,
    }
}

/// Composing one more unescaped character extends the scanned prefix.
proof fn lemma_compose_quoted_push(
    prefix: Seq<char>,
    c: char,
    inner: Option<(Seq<char>, Seq<char>)>,
)
    ensures
        compose_quoted(prefix, compose_quoted(seq![c], inner)) == compose_quoted(
            prefix.push(c),
            inner,
        ),
{
    match inner {
        Some((t, rest)) => {
            assert(prefix + (seq![c] + t) =~= prefix.push(c) + t);
        },
        None => (),
    }
}

/// Scan the inside of a quoted argument delimited by `q`, beginning right
/// after the opening quote at position `start`; on success, the unescaped
/// token and the position right after the closing quote.
#[verifier::loop_isolation(false)]
fn scan_quoted(s: &str, start: usize, q: char) -> (r: Option<(String, usize)>)
    requires
        start <= s@.len(),
        is_quote(q),
    ensures
        r matches Some((t, e)) ==> start < e <= s@.len() && spec_quoted(s@.skip(start as int), q)
            == Some((t@, s@.skip(e as int))),
        r is None ==> spec_quoted(s@.skip(start as int), q) is None,
{
    let n = s.unicode_len();
    let mut acc = String::new();
    let mut j: usize = start;
    loop
        invariant
            start <= j <= n,
            spec_quoted(s@.skip(start as int), q) == compose_quoted(
                acc@,
                spec_quoted(s@.skip(j as int), q),
            ),
        decreases n - j,
    {
        if j >= n {
            proof {
                assert(s@.skip(j as int).len() == 0);
            }
            return None;
        }
        let c = s.get_char(j);
        proof {
            assert(s@.skip(j as int)[0] == s@[j as int]);
        }
        if c == q {
            proof {
                assert(s@.skip(j as int).drop_first() =~= s@.skip(j + 1));
                assert(acc@ + Seq::<char>::empty() =~= acc@);
            }
            return Some((acc, j + 1));
        } else if c == '\\' {
            if j + 1 >= n {
                proof {
                    assert(s@.skip(j as int).len() == 1);
                }
                return None;
            }
            let c2 = s.get_char(j + 1);
            proof {
                assert(s@.skip(j as int)[1] == s@[j + 1]);
            }
            if is_escapable_char(c2) {
                proof {
                    assert(s@.skip(j as int).skip(2) =~= s@.skip(j + 2));
                    lemma_compose_quoted_push(acc@, c2, spec_quoted(s@.skip(j + 2), q));
                }
                push_char(&mut acc, c2);
                j += 2;
            } else {
                return None;
            }
        } else {
            proof {
                assert(s@.skip(j as int).drop_first() =~= s@.skip(j + 1));
                lemma_compose_quoted_push(acc@, c, spec_quoted(s@.skip(j + 1), q));
            }
            push_char(&mut acc, c);
            j += 1;
        }
    }
}

/// A maximal run of non-whitespace is exactly what `spec_bare` splits off.
proof fn lemma_spec_bare_take(u: Seq<char>, m: int)
    requires
        0 <= m <= u.len(),
        forall|k: int| 0 <= k < m ==> !is_ws(#[trigger] u[k]),
        m == u.len() || is_ws(u[m]),
    ensures
        spec_bare(u) == (u.take(m), u.skip(m)),
    decreases m,
{
    if m == 0 {
        assert(u.take(0) =~= Seq::<char>::empty());
        assert(u.skip(0) =~= u);
    } else {
        lemma_spec_bare_take(u.drop_first(), m - 1);
        assert(seq![u[0]] + u.drop_first().take(m - 1) =~= u.take(m));
        assert(u.drop_first().skip(m - 1) =~= u.skip(m));
    }
}

/// Scan the bare argument beginning at `start`: the maximal run of
/// non-whitespace characters, and the position after it.
#[verifier::loop_isolation(false)]
fn scan_bare(s: &str, start: usize) -> (r: (String, usize))
    requires
        start < s@.len(),
        !is_ws(s@[start as int]),
    ensures
        start < r.1 <= s@.len(),
        spec_bare(s@.skip(start as int)) == (r.0@, s@.skip(r.1 as int)),
{
    let n = s.unicode_len();
    let mut j: usize = start;
    loop
        invariant
            start <= j <= n,
            forall|k: int| start <= k < j ==> !is_ws(#[trigger] s@[k]),
        decreases n - j,
    {
        if j >= n {
            break ;
        }
        if is_ws_char(s.get_char(j)) {
            break ;
        }
        j += 1;
    }
    let token = s.substring_char(start, j).to_owned();
    proof {
        let u = s@.skip(start as int);
        let m = j - start;
        assert(forall|k: int| 0 <= k < m ==> u[k] == s@[start + k] && !is_ws(#[trigger] u[k]));
        assert(m == u.len() || is_ws(u[m as int]));
        lemma_spec_bare_take(u, m as int);
        assert(u.take(m as int) =~= s@.subrange(start as int, j as int));
        assert(u.skip(m as int) =~= s@.skip(j as int));
    }
    (token, j)
}

/// The maximal run of whitespace is exactly what `spec_skip_ws` drops.
proof fn lemma_spec_skip_ws_take(u: Seq<char>, m: int)
    requires
        0 <= m <= u.len(),
        forall|k: int| 0 <= k < m ==> is_ws(#[trigger] u[k]),
        m == u.len() || !is_ws(u[m]),
    ensures
        spec_skip_ws(u) == u.skip(m),
    decreases m,
{
    if m == 0 {
        assert(u.skip(0) =~= u);
    } else {
        lemma_spec_skip_ws_take(u.drop_first(), m - 1);
        assert(u.drop_first().skip(m - 1) =~= u.skip(m));
    }
}

/// Skip the whitespace run beginning at `start`; the position after it.
#[verifier::loop_isolation(false)]
fn skip_ws_from(s: &str, start: usize) -> (e: usize)
    requires
        start <= s@.len(),
    ensures
        start <= e <= s@.len(),
        spec_skip_ws(s@.skip(start as int)) == s@.skip(e as int),
        e < s@.len() ==> !is_ws(s@[e as int]),
{
    let n = s.unicode_len();
    let mut j: usize = start;
    loop
        invariant
            start <= j <= n,
            forall|k: int| start <= k < j ==> is_ws(#[trigger] s@[k]),
        decreases n - j,
    {
        if j >= n {
            break ;
        }
        if !is_ws_char(s.get_char(j)) {
            break ;
        }
        j += 1;
    }
    proof {
        let u = s@.skip(start as int);
        let m = j - start;
        assert(forall|k: int| 0 <= k < m ==> u[k] == s@[start + k] && is_ws(#[trigger] u[k]));
        assert(m == u.len() || !is_ws(u[m as int]));
        lemma_spec_skip_ws_take(u, m as int);
        assert(u.skip(m as int) =~= s@.skip(j as int));
    }
    j
}

/// A partially tokenized line: the arguments found so far, in front of
/// whatever the rest of the line yields.
pub open spec fn compose_args(prefix: Seq<Seq<char>>, inner: Option<Seq<Seq<char>>>) -> Option<
    Seq<Seq<char>>,
> {
    match inner {
        Some(ts) => Some(prefix + ts),
        None => None,
    }
}

/// Composing one more argument extends the prefix found so far.
proof fn lemma_compose_args_push(prefix: Seq<Seq<char>>, t: Seq<char>, inner: Option<Seq<Seq<char>>>)
    ensures
        compose_args(prefix, compose_args(seq![t], inner)) == compose_args(prefix.push(t), inner),
{
    match inner {
        Some(ts) => {
            assert(prefix + (seq![t] + ts) =~= prefix.push(t) + ts);
        },
        None => (),
    }
}

/// Split one line of input into its argument tokens. The grammar of
/// `spec_tokenize` decides: arguments are quoted strings (single or double
/// quotes, with backslash escapes for `\`, `"` and `'`) or maximal bare
/// runs of non-whitespace, separated by runs of spaces and tabs. The empty
/// line gives no tokens. A line the grammar cannot consume whole — an
/// unterminated quote, a stray escape, a quoted argument not followed by
/// whitespace, leading or trailing whitespace — fails as a whole.
#[verifier::loop_isolation(false)]
pub fn tokenize(line: &str) -> (r: Result<Vec<String>, ParseError>)
    ensures
        r is Ok <==> spec_tokenize(line@) is Some,
        r matches Ok(args) ==> spec_tokenize(line@) == Some(args.deep_view()),
        r matches Err(e) ==> e == ParseError::MalformedArguments,
{
    let n = line.unicode_len();
    let mut tokens: Vec<String> = Vec::new();
    if n == 0 {
        proof {
            assert(tokens.deep_view() =~~= Seq::<Seq<char>>::empty());
        }
        return Ok(tokens);
    }
    let mut i: usize = 0;
    proof {
        assert(line@.skip(0) =~= line@);
        assert(tokens.deep_view() + spec_args(line@).unwrap() =~~= spec_args(line@).unwrap());
    }
    loop
        invariant
            0 <= i < n,
            spec_tokenize(line@) == compose_args(tokens.deep_view(), spec_args(line@.skip(i as int))),
        decreases n - i,
    {
        let ghost prefix = tokens.deep_view();
        let ghost suffix = line@.skip(i as int);
        proof {
            assert(suffix[0] == line@[i as int]);
        }
        let c = line.get_char(i);
        if is_ws_char(c) {
            return Err(ParseError::MalformedArguments);
        }
        let (token, e): (String, usize) = if is_quote_char(c) {
            proof {
                assert(suffix.drop_first() =~= line@.skip(i + 1));
            }
            match scan_quoted(line, i + 1, c) {
                Some(te) => te,
                None => {
                    return Err(ParseError::MalformedArguments);
                },
            }
        } else {
            scan_bare(line, i)
        };
        proof {
            assert(spec_arg(suffix) == Some((token@, line@.skip(e as int))));
        }
        tokens.push(token);
        proof {
            assert(tokens.deep_view() =~~= prefix.push(token@));
        }
        if e == n {
            proof {
                assert(line@.skip(e as int).len() == 0);
                assert(spec_args(suffix) == Some(seq![token@]));
                assert(prefix + seq![token@] =~~= tokens.deep_view());
            }
            return Ok(tokens);
        }
        proof {
            assert(line@.skip(e as int)[0] == line@[e as int]);
        }
        if !is_ws_char(line.get_char(e)) {
            return Err(ParseError::MalformedArguments);
        }
        let k = skip_ws_from(line, e);
        if k == n {
            return Err(ParseError::MalformedArguments);
        }
        proof {
            lemma_compose_args_push(prefix, token@, spec_args(line@.skip(k as int)));
        }
        i = k;
    }
}

/// The arguments of one command line, as the tokenizer produced them. A
/// value can also be parsed from a `&str` through `str::parse`.
#[derive(Debug)]
pub struct CmdArgs(pub Vec<String>);

impl core::str::FromStr for CmdArgs {
    type Err = ();

    fn from_str(s: &str) -> Result<CmdArgs, ()> {
        match tokenize(s) {
            Ok(args) => Ok(CmdArgs(args)),
            Err(_) => Err(()),
        }
    }
}

/// A character as it is written inside a quoted argument: `\`, `"` and `'`
/// get a backslash in front, anything else stands for itself.
pub open spec fn escape_char(c: char) -> Seq<char> {
    if is_escapable(c) {
        seq!['\\', c]
    } else {
        seq![c]
    }
}

/// A token as it is written inside a quoted argument.
pub open spec fn escape_chars(t: Seq<char>) -> Seq<char>
    decreases t.len(),
{
    if t.len() == 0 {
        Seq::empty()
    } else {
        escape_char(t[0]) + escape_chars(t.drop_first())
    }
}

/// A token written as a single-quoted argument.
pub open spec fn quote_token(t: Seq<char>) -> Seq<char> {
    seq!['\''] + escape_chars(t) + seq!['\'']
}

/// A token list written as one line: each token single-quoted, the quoted
/// tokens joined by single spaces.
pub open spec fn quote_join(tokens: Seq<Seq<char>>) -> Seq<char>
    decreases tokens.len(),
{
    if tokens.len() == 0 {
        Seq::empty()
    } else if tokens.len() == 1 {
        quote_token(tokens[0])
    } else {
        quote_token(tokens[0]) + seq![' '] + quote_join(tokens.drop_first())
    }
}

/// Escaping one more character extends the escaped text at the end.
proof fn lemma_escape_chars_push(t: Seq<char>, c: char)
    ensures
        escape_chars(t.push(c)) == escape_chars(t) + escape_char(c),
    decreases t.len(),
{
    if t.len() == 0 {
        assert(t.push(c)[0] == c);
        assert(t.push(c).drop_first() =~= Seq::<char>::empty());
        assert(escape_chars(Seq::<char>::empty()) == Seq::<char>::empty());
        assert(escape_chars(t.push(c)) == escape_char(c) + escape_chars(
            t.push(c).drop_first(),
        ));
        assert(escape_char(c) + Seq::<char>::empty() =~= escape_char(c));
        assert(Seq::<char>::empty() + escape_char(c) =~= escape_char(c));
    } else {
        assert(t.push(c)[0] == t[0]);
        assert(t.push(c).drop_first() =~= t.drop_first().push(c));
        lemma_escape_chars_push(t.drop_first(), c);
        assert(escape_char(t[0]) + (escape_chars(t.drop_first()) + escape_char(c)) =~= (escape_char(
            t[0],
        ) + escape_chars(t.drop_first())) + escape_char(c));
    }
}

/// Quoting one more token extends the joined line at the end, with a
/// separating space once there is something to separate from.
proof fn lemma_quote_join_push(tokens: Seq<Seq<char>>, t: Seq<char>)
    ensures
        tokens.len() == 0 ==> quote_join(tokens.push(t)) == quote_token(t),
        tokens.len() > 0 ==> quote_join(tokens.push(t)) == quote_join(tokens) + seq![' ']
            + quote_token(t),
    decreases tokens.len(),
{
    if tokens.len() == 0 {
        assert(tokens.push(t)[0] == t);
    } else if tokens.len() == 1 {
        assert(tokens.push(t)[0] == tokens[0]);
        assert(tokens.push(t).drop_first() =~~= seq![t]);
        assert(quote_join(seq![t]) == quote_token(t));
    } else {
        assert(tokens.push(t)[0] == tokens[0]);
        assert(tokens.push(t).drop_first() =~~= tokens.drop_first().push(t));
        lemma_quote_join_push(tokens.drop_first(), t);
        assert(quote_token(tokens[0]) + seq![' '] + (quote_join(tokens.drop_first()) + seq![' ']
            + quote_token(t)) =~= (quote_token(tokens[0]) + seq![' '] + quote_join(
            tokens.drop_first(),
        )) + seq![' '] + quote_token(t));
    }
}

/// Append a token to the line in its quoted form.
#[verifier::loop_isolation(false)]
fn append_quoted(out: &mut String, t: &str)
    ensures
        final(out)@ == old(out)@ + quote_token(t@),
{
    let n = t.unicode_len();
    push_char(out, '\'');
    let ghost opened = out@;
    let mut j: usize = 0;
    proof {
        assert(t@.take(0) =~= Seq::<char>::empty());
        assert(opened + Seq::<char>::empty() =~= opened);
    }
    while j < n
        invariant
            0 <= j <= n,
            out@ == opened + escape_chars(t@.take(j as int)),
        decreases n - j,
    {
        let c = t.get_char(j);
        proof {
            assert(t@.take(j + 1) =~= t@.take(j as int).push(t@[j as int]));
            lemma_escape_chars_push(t@.take(j as int), t@[j as int]);
        }
        if is_escapable_char(c) {
            push_char(out, '\\');
            push_char(out, c);
            proof {
                assert(opened + (escape_chars(t@.take(j as int)) + escape_char(t@[j as int])) =~= (
                opened + escape_chars(t@.take(j as int))).push('\\').push(c));
            }
        } else {
            push_char(out, c);
            proof {
                assert(opened + (escape_chars(t@.take(j as int)) + escape_char(t@[j as int])) =~= (
                opened + escape_chars(t@.take(j as int))).push(c));
            }
        }
        j += 1;
    }
    push_char(out, '\'');
    proof {
        assert(t@.take(n as int) =~= t@);
        assert((opened + escape_chars(t@)).push('\'') =~= old(out)@ + quote_token(t@));
    }
}

/// Render the arguments as one line that tokenizes back to exactly these
/// arguments: each single-quoted with `\`, `"` and `'` escaped, joined by
/// single spaces.
#[verifier::loop_isolation(false)]
pub fn quote_args(args: &Vec<String>) -> (r: String)
    ensures
        r@ == quote_join(args.deep_view()),
{
    let mut out = String::new();
    let mut j: usize = 0;
    proof {
        assert(args.deep_view().take(0) =~~= Seq::<Seq<char>>::empty());
    }
    while j < args.len()
        invariant
            0 <= j <= args.len(),
            out@ == quote_join(args.deep_view().take(j as int)),
        decreases args.len() - j,
    {
        proof {
            assert(args.deep_view().take(j + 1) =~~= args.deep_view().take(j as int).push(
                args.deep_view()[j as int],
            ));
            lemma_quote_join_push(args.deep_view().take(j as int), args.deep_view()[j as int]);
        }
        if j > 0 {
            push_char(&mut out, ' ');
        }
        let ghost sep = out@;
        append_quoted(&mut out, args[j].as_str());
        proof {
            if j > 0 {
                assert(quote_join(args.deep_view().take(j as int)).push(' ') + quote_token(
                    args.deep_view()[j as int],
                ) =~= quote_join(args.deep_view().take(j as int)) + seq![' '] + quote_token(
                    args.deep_view()[j as int],
                ));
            }
        }
        j += 1;
    }
    proof {
        assert(args.deep_view().take(args.len() as int) =~~= args.deep_view());
    }
    out
}

/// The escaped form of a token followed by a closing quote parses back to
/// exactly that token, leaving exactly what follows the quote.
proof fn lemma_parse_quoted_escaped(t: Seq<char>, rest: Seq<char>)
    ensures
        spec_quoted(escape_chars(t) + seq!['\''] + rest, '\'') == Some((t, rest)),
    decreases t.len(),
{
    let s = escape_chars(t) + seq!['\''] + rest;
    if t.len() == 0 {
        assert(escape_chars(t) == Seq::<char>::empty());
        assert(s =~= seq!['\''] + rest);
        assert(s[0] == '\'');
        assert(s.drop_first() =~= rest);
        assert(Seq::<char>::empty() =~= t);
    } else {
        let c = t[0];
        let t1 = t.drop_first();
        assert(escape_chars(t) == escape_char(c) + escape_chars(t1));
        lemma_parse_quoted_escaped(t1, rest);
        if is_escapable(c) {
            assert(s[0] == '\\');
            assert(s[1] == c);
            assert(s.len() >= 2);
            assert(s.skip(2) =~= escape_chars(t1) + seq!['\''] + rest);
            assert(seq![c] + t1 =~= t);
        } else {
            assert(s[0] == c);
            assert(c != '\'' && c != '\\');
            assert(s.drop_first() =~= escape_chars(t1) + seq!['\''] + rest);
            assert(seq![c] + t1 =~= t);
        }
    }
}

/// A quoted token at the front of a line parses as one argument, leaving
/// exactly what follows it.
proof fn lemma_parse_quoted_token(t: Seq<char>, rest: Seq<char>)
    ensures
        spec_arg(quote_token(t) + rest) == Some((t, rest)),
{
    let s = quote_token(t) + rest;
    assert(s[0] == '\'');
    assert(!is_ws('\'') && is_quote('\''));
    assert(s.drop_first() =~= escape_chars(t) + seq!['\''] + rest);
    lemma_parse_quoted_escaped(t, rest);
}

/// A quoted-and-joined token list is never empty and opens with a quote.
proof fn lemma_quote_join_first(tokens: Seq<Seq<char>>)
    requires
        tokens.len() > 0,
    ensures
        quote_join(tokens).len() >= 2,
        quote_join(tokens)[0] == '\'',
{
    if tokens.len() == 1 {
        assert(quote_join(tokens) == quote_token(tokens[0]));
        assert(quote_token(tokens[0])[0] == '\'');
    } else {
        assert(quote_join(tokens) == quote_token(tokens[0]) + seq![' '] + quote_join(
            tokens.drop_first(),
        ));
        assert(quote_join(tokens)[0] == quote_token(tokens[0])[0]);
        assert(quote_token(tokens[0])[0] == '\'');
    }
}

/// A non-empty quoted-and-joined token list parses back to exactly those
/// tokens.
proof fn lemma_parse_quote_join(tokens: Seq<Seq<char>>)
    requires
        tokens.len() > 0,
    ensures
        spec_args(quote_join(tokens)) == Some(tokens),
    decreases tokens.len(),
{
    if tokens.len() == 1 {
        assert(quote_join(tokens) =~= quote_token(tokens[0]) + Seq::<char>::empty());
        lemma_parse_quoted_token(tokens[0], Seq::empty());
        assert(seq![tokens[0]] =~~= tokens);
    } else {
        let t0 = tokens[0];
        let tokens1 = tokens.drop_first();
        let qj = quote_join(tokens1);
        let rest = seq![' '] + qj;
        assert(quote_join(tokens) =~= quote_token(t0) + rest);
        lemma_parse_quoted_token(t0, rest);
        assert(rest[0] == ' ' && is_ws(' '));
        lemma_quote_join_first(tokens1);
        assert(rest.drop_first() =~= qj);
        assert(spec_skip_ws(rest) == spec_skip_ws(qj));
        assert(!is_ws(qj[0]));
        assert(spec_skip_ws(qj) == qj);
        lemma_parse_quote_join(tokens1);
        assert(seq![t0] + tokens1 =~~= tokens);
    }
}

/// Requoting round trip: any token list, written out with `quote_join`
/// (each token single-quoted with `\`, `"` and `'` escaped, joined by
/// single spaces), tokenizes back to exactly that token list.
pub proof fn lemma_tokenize_quote_join(tokens: Seq<Seq<char>>)
    ensures
        spec_tokenize(quote_join(tokens)) == Some(tokens),
{
    if tokens.len() == 0 {
        assert(quote_join(tokens).len() == 0);
        assert(Seq::<Seq<char>>::empty() =~~= tokens);
    } else {
        lemma_quote_join_first(tokens);
        lemma_parse_quote_join(tokens);
    }
}

} // verus!
