//! Splits markup source into tokens: angle brackets, slashes, `=`,
//! identifiers, string literals and brace-delimited host expressions.
use vstd::prelude::*;
use crate::text::{first_index_of, find_char, slice, string_of};

verus! {

/// What a token is, with the text it carries.
pub enum Tok {
    Lt,
    Gt,
    Slash,
    Eq,
    Ident(Seq<char>),
    Str(Seq<char>),
    Block(Seq<char>),
}

/// The kind of an executable token.
#[derive(Debug)]
pub enum TokenKind {
    Lt,
    Gt,
    Slash,
    Eq,
    Ident(String),
    /// A string literal, holding the value it denotes.
    Str(String),
    /// A host expression, holding its source text with the braces.
    Block(String),
}

/// A token and the source position (in characters) where it starts.
#[derive(Debug)]
pub struct Token {
    pub kind: TokenKind,
    pub pos: usize,
}

impl Token {
    /// What this token denotes, without its position.
    pub open spec fn tok(&self) -> Tok {
        kind_view(self.kind)
    }
}

/// What an executable token kind denotes.
pub open spec fn kind_view(k: TokenKind) -> Tok {
    match k {
        TokenKind::Lt => Tok::Lt,
        TokenKind::Gt => Tok::Gt,
        TokenKind::Slash => Tok::Slash,
        TokenKind::Eq => Tok::Eq,
        TokenKind::Ident(s) => Tok::Ident(s@),
        TokenKind::Str(s) => Tok::Str(s@),
        TokenKind::Block(s) => Tok::Block(s@),
    }
}

/// The mathematical content of a token sequence: each token with its position.
pub open spec fn tokens_view(v: Seq<Token>) -> Seq<(Tok, nat)> {
    Seq::new(v.len(), |i: int| (v[i].tok(), v[i].pos as nat))
}

/// The value a Rust string literal (quotes included) denotes, if it is one.
pub uninterp spec fn string_literal_value(lit: Seq<char>) -> Option<Seq<char>>;

/// Relies on `syn::parse_str::<syn::LitStr>` and `syn::LitStr::value`: the
/// value a Rust string literal denotes, unescaped; `None` where the text is
/// not exactly one string literal.
#[verifier::external_body]
fn literal_value(lit: &str) -> (r: Option<String>)
    ensures
        match string_literal_value(lit@) {
            Some(v) => r matches Some(s) && s@ == v,
            None => r is None,
        },
{
    syn::parse_str::<syn::LitStr>(lit).ok().map(|l| l.value())
}

/// Whether a text is exactly one Rust block expression.
pub uninterp spec fn block_expr_parses(src: Seq<char>) -> bool;

/// Relies on `syn::parse_str::<syn::ExprBlock>`: whether the text is exactly
/// one Rust block expression.
#[verifier::external_body]
fn is_block_expr(src: &str) -> (r: bool)
    ensures
        r == block_expr_parses(src@),
{
    syn::parse_str::<syn::ExprBlock>(src).is_ok()
}

/// Whitespace between tokens.
pub open spec fn is_space(c: char) -> bool {
    c == ' ' || c == '\t' || c == '\n' || c == '\r'
}

/// A character that can begin an identifier.
pub open spec fn is_ident_start(c: char) -> bool {
    ('a' <= c && c <= 'z') || ('A' <= c && c <= 'Z') || c == '_'
}

/// A character that can continue an identifier.
pub open spec fn is_ident_char(c: char) -> bool {
    is_ident_start(c) || ('0' <= c && c <= '9')
}

/// Where the identifier characters that start at `i` end.
pub open spec fn ident_end(s: Seq<char>, i: int) -> int
    decreases s.len() - i,
{
    if i < 0 || i >= s.len() || !is_ident_char(s[i]) {
        i
    } else {
        ident_end(s, i + 1)
    }
}

/// Scanning a string literal at `i` (inside the quotes): the index just past
/// its closing quote; a backslash escapes the character after it.
pub open spec fn string_end(s: Seq<char>, i: int) -> Option<int>
    decreases s.len() + 1 - i,
{
    if i < 0 || i >= s.len() {
        None
    } else if s[i] == '"' {
        Some(i + 1)
    } else if s[i] == '\\' {
        string_end(s, i + 2)
    } else {
        string_end(s, i + 1)
    }
}

/// How many `#` follow one another from `i`.
pub open spec fn count_hashes(s: Seq<char>, i: int) -> nat
    decreases s.len() - i,
{
    if 0 <= i < s.len() && s[i] == '#' {
        1 + count_hashes(s, i + 1)
    } else {
        0
    }
}

/// `n` characters from `i` on are all `#`.
pub open spec fn hashes_at(s: Seq<char>, i: int, n: nat) -> bool {
    0 <= i && i + n <= s.len() && forall|k: int| 0 <= k < n ==> #[trigger] s[i + k] == '#'
}

/// Scanning the body of a raw string with `n` hashes from `i`: the index
/// just past the quote and hashes that close it.
pub open spec fn raw_end(s: Seq<char>, i: int, n: nat) -> Option<int>
    decreases s.len() - i,
{
    if i < 0 || i >= s.len() {
        None
    } else if s[i] == '"' && hashes_at(s, i + 1, n) {
        Some(i + 1 + n)
    } else {
        raw_end(s, i + 1, n)
    }
}

/// A raw string literal `r#*"..."#*` whose `r` is at `i`: the index just
/// past it.
pub open spec fn raw_string_end(s: Seq<char>, i: int) -> Option<int> {
    let n = count_hashes(s, i + 1);
    if 0 <= i && i + 1 + n < s.len() && s[i + 1 + n] == '"' {
        raw_end(s, i + 2 + n, n)
    } else {
        None
    }
}

/// What follows a `'` at `i`: a character literal (escaped or not) or,
/// failing that, a lifetime, whose quote alone is skipped. Gives the index
/// to go on from.
pub open spec fn quote_end(s: Seq<char>, i: int) -> int {
    if i + 3 < s.len() && s[i + 1] == '\\' {
        match first_index_of(s.subrange(i + 3, s.len() as int), '\'') {
            Some(k) => i + 3 + k + 1,
            None => i + 1,
        }
    } else if i + 2 < s.len() && s[i + 2] == '\'' {
        i + 3
    } else {
        i + 1
    }
}

/// Scanning a block comment at `i` with `depth` comments open (they nest):
/// the index just past the `*/` that closes the outermost.
pub open spec fn comment_end(s: Seq<char>, i: int, depth: nat) -> Option<int>
    decreases s.len() - i,
{
    if i < 0 || i + 1 >= s.len() {
        None
    } else if s[i] == '*' && s[i + 1] == '/' {
        if depth <= 1 {
            Some(i + 2)
        } else {
            comment_end(s, i + 2, (depth - 1) as nat)
        }
    } else if s[i] == '/' && s[i + 1] == '*' {
        comment_end(s, i + 2, depth + 1)
    } else {
        comment_end(s, i + 1, depth)
    }
}

/// Scanning a host expression at `i` with `depth` braces open: the index just
/// past the brace that closes it. Braces inside string, raw string and
/// character literals and inside comments do not count.
pub open spec fn block_end(s: Seq<char>, i: int, depth: nat) -> Option<int>
    decreases s.len() - i,
{
    if i < 0 || i >= s.len() {
        None
    } else if s[i] == '{' {
        block_end(s, i + 1, depth + 1)
    } else if s[i] == '}' {
        if depth <= 1 {
            Some(i + 1)
        } else {
            block_end(s, i + 1, (depth - 1) as nat)
        }
    } else if s[i] == '"' {
        match string_end(s, i + 1) {
            Some(j) => if i < j <= s.len() {
                block_end(s, j, depth)
            } else {
                None
            },
            None => None,
        }
    } else if s[i] == 'r' && raw_string_end(s, i) is Some {
        let j = raw_string_end(s, i)->0;
        if i < j <= s.len() {
            block_end(s, j, depth)
        } else {
            None
        }
    } else if s[i] == '\'' {
        let j = quote_end(s, i);
        if i < j <= s.len() {
            block_end(s, j, depth)
        } else {
            None
        }
    } else if s[i] == '/' && i + 1 < s.len() && s[i + 1] == '/' {
        match first_index_of(s.subrange(i + 2, s.len() as int), '\n') {
            Some(k) => if 0 <= k && i + 3 + k <= s.len() {
                block_end(s, i + 3 + k, depth)
            } else {
                None
            },
            None => None,
        }
    } else if s[i] == '/' && i + 1 < s.len() && s[i + 1] == '*' {
        match comment_end(s, i + 2, 1) {
            Some(j) => if i < j <= s.len() {
                block_end(s, j, depth)
            } else {
                None
            },
            None => None,
        }
    } else {
        block_end(s, i + 1, depth)
    }
}

/// The token that starts at `i` (not a space) and the index just past it, or
/// `None` where no token starts there. A string literal carries the value it
/// denotes; a host expression must be a Rust block.
pub open spec fn token_at(s: Seq<char>, i: int) -> Option<(Tok, int)> {
    let n = s.len();
    let c = s[i];
    if c == '<' {
        Some((Tok::Lt, i + 1))
    } else if c == '>' {
        Some((Tok::Gt, i + 1))
    } else if c == '/' {
        Some((Tok::Slash, i + 1))
    } else if c == '=' {
        Some((Tok::Eq, i + 1))
    } else if c == 'r' && raw_string_end(s, i) is Some {
        let j = raw_string_end(s, i)->0;
        match string_literal_value(s.subrange(i, j)) {
            Some(v) => Some((Tok::Str(v), j)),
            None => None,
        }
    } else if is_ident_start(c) {
        let j = ident_end(s, i);
        Some((Tok::Ident(s.subrange(i, j)), j))
    } else if c == '"' {
        match string_end(s, i + 1) {
            Some(j) => match string_literal_value(s.subrange(i, j)) {
                Some(v) => Some((Tok::Str(v), j)),
                None => None,
            },
            None => None,
        }
    } else if c == '{' {
        match block_end(s, i + 1, 1) {
            Some(j) => if block_expr_parses(s.subrange(i, j)) {
                Some((Tok::Block(s.subrange(i, j)), j))
            } else {
                None
            },
            None => None,
        }
    } else {
        None
    }
}

/// The tokens of `s` from `i` on, or the position where no token starts.
pub open spec fn lex_from(s: Seq<char>, i: int) -> Result<Seq<(Tok, nat)>, nat>
    decreases s.len() - i,
{
    if i < 0 || i >= s.len() {
        Ok(Seq::empty())
    } else if is_space(s[i]) {
        lex_from(s, i + 1)
    } else {
        match token_at(s, i) {
            Some((t, j)) => if i < j <= s.len() {
                match lex_from(s, j) {
                    Ok(rest) => Ok(seq![(t, i as nat)] + rest),
                    Err(p) => Err(p),
                }
            } else {
                Err(i as nat)
            },
            None => Err(i as nat),
        }
    }
}

fn ident_char(c: char) -> (r: bool)
    ensures
        r == is_ident_char(c),
{
    ('a' <= c && c <= 'z') || ('A' <= c && c <= 'Z') || c == '_' || ('0' <= c && c <= '9')
}

fn scan_ident(s: &Vec<char>, i: usize) -> (r: usize)
    requires
        i <= s@.len(),
    ensures
        r == ident_end(s@, i as int),
        i <= r <= s@.len(),
{
    let mut j = i;
    while j < s.len() && ident_char(s[j])
        invariant
            i <= j <= s@.len(),
            ident_end(s@, i as int) == ident_end(s@, j as int),
        decreases s@.len() - j,
    {
        j = j + 1;
    }
    j
}

fn scan_string(s: &Vec<char>, i: usize) -> (r: Option<usize>)
    requires
        i <= s@.len(),
    ensures
        match string_end(s@, i as int) {
            Some(j) => r == Some(j as usize) && i < j <= s@.len(),
            None => r is None,
        },
{
    let n = s.len();
    let mut j = i;
    while j < n
        invariant
            n == s@.len(),
            i <= j <= n,
            string_end(s@, i as int) == string_end(s@, j as int),
        decreases n - j,
    {
        if s[j] == '"' {
            return Some(j + 1);
        } else if s[j] == '\\' {
            if n - j <= 2 {
                assert(string_end(s@, j + 2) is None);
                return None;
            }
            j = j + 2;
        } else {
            j = j + 1;
        }
    }
    None
}

fn scan_hashes(s: &Vec<char>, i: usize) -> (r: usize)
    requires
        i <= s@.len(),
    ensures
        r == count_hashes(s@, i as int),
        i + r <= s@.len(),
{
    let mut j = i;
    while j < s.len() && s[j] == '#'
        invariant
            i <= j <= s@.len(),
            count_hashes(s@, i as int) == (j - i) + count_hashes(s@, j as int),
        decreases s@.len() - j,
    {
        j = j + 1;
    }
    j - i
}

fn hashes_follow(s: &Vec<char>, i: usize, n: usize) -> (r: bool)
    ensures
        r == hashes_at(s@, i as int, n as nat),
{
    if n > s.len() || i > s.len() - n {
        return false;
    }
    let len = s.len();
    let mut k: usize = 0;
    while k < n
        invariant
            len == s@.len(),
            i + n <= s@.len(),
            k <= n,
            forall|m: int| 0 <= m < k ==> #[trigger] s@[i + m] == '#',
        decreases n - k,
    {
        if s[i + k] != '#' {
            return false;
        }
        k = k + 1;
    }
    true
}

fn scan_raw_string(s: &Vec<char>, i: usize) -> (r: Option<usize>)
    requires
        i < s@.len(),
    ensures
        match raw_string_end(s@, i as int) {
            Some(j) => r == Some(j as usize) && i < j <= s@.len(),
            None => r is None,
        },
{
    let len = s.len();
    let n = scan_hashes(s, i + 1);
    if !(i + 1 + n < len && s[i + 1 + n] == '"') {
        return None;
    }
    let mut j = i + 2 + n;
    while j < len
        invariant
            len == s@.len(),
            i + 2 + n <= j <= len,
            n == count_hashes(s@, i + 1),
            raw_string_end(s@, i as int) == raw_end(s@, j as int, n as nat),
        decreases len - j,
    {
        if s[j] == '"' && hashes_follow(s, j + 1, n) {
            return Some(j + 1 + n);
        }
        j = j + 1;
    }
    None
}

fn skip_quote(s: &Vec<char>, i: usize) -> (r: usize)
    requires
        i < s@.len(),
    ensures
        r == quote_end(s@, i as int),
        i < r <= s@.len(),
{
    let len = s.len();
    if len - i > 3 && s[i + 1] == '\\' {
        let rest = slice(s, i + 3, len);
        match find_char(&rest, '\'') {
            Some(k) => i + 3 + k + 1,
            None => i + 1,
        }
    } else if len - i > 2 && s[i + 2] == '\'' {
        i + 3
    } else {
        i + 1
    }
}

fn scan_comment(s: &Vec<char>, i: usize) -> (r: Option<usize>)
    requires
        2 <= i <= s@.len(),
    ensures
        match comment_end(s@, i as int, 1) {
            Some(j) => r == Some(j as usize) && i < j <= s@.len(),
            None => r is None,
        },
{
    let len = s.len();
    let mut j = i;
    let mut depth: usize = 1;
    while len - j > 1
        invariant
            len == s@.len(),
            i <= j <= len,
            1 <= depth <= j,
            comment_end(s@, i as int, 1) == comment_end(s@, j as int, depth as nat),
        decreases len - j,
    {
        if s[j] == '*' && s[j + 1] == '/' {
            if depth <= 1 {
                return Some(j + 2);
            }
            depth = depth - 1;
            j = j + 2;
        } else if s[j] == '/' && s[j + 1] == '*' {
            depth = depth + 1;
            j = j + 2;
        } else {
            j = j + 1;
        }
    }
    None
}

fn scan_block(s: &Vec<char>, i: usize) -> (r: Option<usize>)
    requires
        1 <= i <= s@.len(),
    ensures
        match block_end(s@, i as int, 1) {
            Some(j) => r == Some(j as usize) && i < j <= s@.len(),
            None => r is None,
        },
{
    let n = s.len();
    let mut j = i;
    let mut depth: usize = 1;
    while j < n
        invariant
            n == s@.len(),
            i <= j <= n,
            1 <= depth <= j,
            block_end(s@, i as int, 1) == block_end(s@, j as int, depth as nat),
        decreases n - j,
    {
        let c = s[j];
        if c == '{' {
            depth = depth + 1;
            j = j + 1;
        } else if c == '}' {
            if depth <= 1 {
                return Some(j + 1);
            }
            depth = depth - 1;
            j = j + 1;
        } else if c == '"' {
            match scan_string(s, j + 1) {
                Some(k) => {
                    j = k;
                },
                None => {
                    return None;
                },
            }
        } else if c == 'r' && scan_raw_string(s, j).is_some() {
            j = match scan_raw_string(s, j) {
                Some(k) => k,
                None => j + 1,
            };
        } else if c == '\'' {
            j = skip_quote(s, j);
        } else if c == '/' && j + 1 < n && s[j + 1] == '/' {
            let rest = slice(s, j + 2, n);
            match find_char(&rest, '\n') {
                Some(k) => {
                    j = j + 3 + k;
                },
                None => {
                    return None;
                },
            }
        } else if c == '/' && j + 1 < n && s[j + 1] == '*' {
            match scan_comment(s, j + 2) {
                Some(k) => {
                    j = k;
                },
                None => {
                    return None;
                },
            }
        } else {
            j = j + 1;
        }
    }
    None
}

/// The token that starts at `i`, and the index just past it.
fn next_token(s: &Vec<char>, i: usize) -> (r: Option<(TokenKind, usize)>)
    requires
        i < s@.len(),
    ensures
        r is None <==> token_at(s@, i as int) is None,
        r matches Some((k, j)) ==> token_at(s@, i as int) == Some((kind_view(k), j as int)) && i < j
            <= s@.len(),
{
    let n = s.len();
    let c = s[i];
    if c == '<' {
        Some((TokenKind::Lt, i + 1))
    } else if c == '>' {
        Some((TokenKind::Gt, i + 1))
    } else if c == '/' {
        Some((TokenKind::Slash, i + 1))
    } else if c == '=' {
        Some((TokenKind::Eq, i + 1))
    } else if c == 'r' && scan_raw_string(s, i).is_some() {
        let j = match scan_raw_string(s, i) {
            Some(j) => j,
            None => i + 1,
        };
        let lit = string_of(&slice(s, i, j));
        match literal_value(lit.as_str()) {
            Some(v) => Some((TokenKind::Str(v), j)),
            None => None,
        }
    } else if ('a' <= c && c <= 'z') || ('A' <= c && c <= 'Z') || c == '_' {
        let j = scan_ident(s, i + 1);
        assert(ident_end(s@, i as int) == ident_end(s@, i + 1));
        let name = string_of(&slice(s, i, j));
        Some((TokenKind::Ident(name), j))
    } else if c == '"' {
        match scan_string(s, i + 1) {
            Some(j) => {
                let lit = string_of(&slice(s, i, j));
                match literal_value(lit.as_str()) {
                    Some(v) => Some((TokenKind::Str(v), j)),
                    None => None,
                }
            },
            None => None,
        }
    } else if c == '{' {
        match scan_block(s, i + 1) {
            Some(j) => {
                let block = string_of(&slice(s, i, j));
                if is_block_expr(block.as_str()) {
                    Some((TokenKind::Block(block), j))
                } else {
                    None
                }
            },
            None => None,
        }
    } else {
        None
    }
}

/// `acc` followed by the tokens of `rest`, or the error of `rest`.
pub open spec fn prepend_tokens(acc: Seq<(Tok, nat)>, rest: Result<Seq<(Tok, nat)>, nat>) -> Result<
    Seq<(Tok, nat)>,
    nat,
> {
    match rest {
        Ok(r) => Ok(acc + r),
        Err(p) => Err(p),
    }
}

/// Splits `s` into tokens, or gives the position where no token starts.
pub fn lex(s: &Vec<char>) -> (r: Result<Vec<Token>, usize>)
    ensures
        match lex_from(s@, 0) {
            Ok(ts) => r matches Ok(v) && tokens_view(v@) == ts,
            Err(p) => r == Err::<Vec<Token>, usize>(p as usize) && p < s@.len(),
        },
{
    let n = s.len();
    let mut out: Vec<Token> = Vec::new();
    let mut i: usize = 0;
    assert(tokens_view(out@) == Seq::<(Tok, nat)>::empty());
    assert(lex_from(s@, 0) == prepend_tokens(tokens_view(out@), lex_from(s@, 0))) by {
        match lex_from(s@, 0) {
            Ok(r) => assert(Seq::<(Tok, nat)>::empty() + r == r),
            Err(_) => {},
        }
    }
    while i < n
        invariant
            n == s@.len(),
            i <= n,
            lex_from(s@, 0) == prepend_tokens(tokens_view(out@), lex_from(s@, i as int)),
        decreases n - i,
    {
        if s[i] == ' ' || s[i] == '\t' || s[i] == '\n' || s[i] == '\r' {
            i = i + 1;
        } else {
            match next_token(s, i) {
                None => {
                    return Err(i);
                },
                Some((kind, j)) => {
                    let ghost acc = tokens_view(out@);
                    let tok = Token { kind, pos: i };
                    let ghost t = tok.tok();
                    out.push(tok);
                    proof {
                        assert(tokens_view(out@) == acc + seq![(t, i as nat)]);
                        match lex_from(s@, j as int) {
                            Ok(rest) => {
                                assert(acc + (seq![(t, i as nat)] + rest) == (acc + seq![(t, i as nat)]) + rest);
                            },
                            Err(_) => {},
                        }
                    }
                    i = j;
                },
            }
        }
    }
    assert(tokens_view(out@) + Seq::<(Tok, nat)>::empty() == tokens_view(out@));
    Ok(out)
}

} // verus!
