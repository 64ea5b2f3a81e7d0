//! The scanner: a pure function from source text to a token sequence or a
//! single lexical error, specified against a recursive model of the scan.

use vstd::prelude::*;
use vstd::string::StrSliceExecFns;
use vstd::string::StringExecFns;

use crate::token::KindModel;
use crate::token::Location;
use crate::token::Token;
use crate::token::TokenModel;
use crate::token::TokenType;

verus! {

/// The lexical error: scanning stops at the first unrecognized character.
#[derive(Debug, Clone, PartialEq, Eq)]
pub enum Error {
    LexerError(&'static str),
}

/// Space and horizontal tab: consumed without producing a token.
pub open spec fn is_blank(c: char) -> bool {
    c == ' ' || c == '\t'
}

/// Characters that may begin an identifier run: letters and underscore.
pub open spec fn is_ident_start(c: char) -> bool {
    ('a' as u32) <= (c as u32) && (c as u32) <= ('z' as u32)
        || ('A' as u32) <= (c as u32) && (c as u32) <= ('Z' as u32)
        || c == '_'
}

/// Characters that may continue an identifier run: letters, underscore, digits.
pub open spec fn is_ident_part(c: char) -> bool {
    is_ident_start(c) || ('0' as u32) <= (c as u32) && (c as u32) <= ('9' as u32)
}

/// The keyword kind for one of the 29 reserved spellings, else a user
/// identifier carrying the spelling. Case-sensitive and exact.
pub open spec fn classify_spec(name: Seq<char>) -> KindModel {
    if name == "let"@ {
        KindModel::Let
    } else if name == "match"@ {
        KindModel::Match
    } else if name == "if"@ {
        KindModel::If
    } else if name == "then"@ {
        KindModel::Then
    } else if name == "else"@ {
        KindModel::Else
    } else if name == "for"@ {
        KindModel::For
    } else if name == "next"@ {
        KindModel::Next
    } else if name == "in"@ {
        KindModel::In
    } else if name == "branch"@ {
        KindModel::Branch
    } else if name == "each"@ {
        KindModel::Each
    } else if name == "mix"@ {
        KindModel::Mix
    } else if name == "which"@ {
        KindModel::Which
    } else if name == "where"@ {
        KindModel::Where
    } else if name == "only"@ {
        KindModel::Only
    } else if name == "within"@ {
        KindModel::Within
    } else if name == "into"@ {
        KindModel::Into
    } else if name == "regular"@ {
        KindModel::Regular
    } else if name == "template"@ {
        KindModel::Template
    } else if name == "to"@ {
        KindModel::To
    } else if name == "namespace"@ {
        KindModel::Namespace
    } else if name == "use"@ {
        KindModel::Use
    } else if name == "function"@ {
        KindModel::Function
    } else if name == "const"@ {
        KindModel::Const
    } else if name == "enum"@ {
        KindModel::Enum
    } else if name == "struct"@ {
        KindModel::Struct
    } else if name == "union"@ {
        KindModel::Union
    } else if name == "trait"@ {
        KindModel::Trait
    } else if name == "impl"@ {
        KindModel::Impl
    } else if name == "alias"@ {
        KindModel::Alias
    } else {
        KindModel::Identifier(name)
    }
}

/// First position at or after `i` that does not continue an identifier run.
pub open spec fn ident_end(s: Seq<char>, i: int) -> int
    decreases s.len() - i,
    when 0 <= i <= s.len()
{
    if i < s.len() && is_ident_part(s[i]) {
        ident_end(s, i + 1)
    } else {
        i
    }
}

pub proof fn lemma_ident_end_bounds(s: Seq<char>, i: int)
    requires
        0 <= i <= s.len(),
    ensures
        i <= ident_end(s, i) <= s.len(),
        i < s.len() && is_ident_part(s[i]) ==> i < ident_end(s, i),
        ident_end(s, i) < s.len() ==> !is_ident_part(s[ident_end(s, i)]),
        forall|k: int| i <= k < ident_end(s, i) ==> is_ident_part(s[k]),
    decreases s.len() - i,
{
    if i < s.len() && is_ident_part(s[i]) {
        lemma_ident_end_bounds(s, i + 1);
    }
}

/// An identifier run never reaches past the first non-identifier character.
pub proof fn lemma_ident_end_le(s: Seq<char>, i: int, j: int)
    requires
        0 <= i <= j <= s.len(),
        j < s.len() ==> !is_ident_part(s[j]),
        j == s.len() || !is_ident_part(s[j]),
    ensures
        ident_end(s, i) <= j,
    decreases s.len() - i,
{
    if i < s.len() && is_ident_part(s[i]) {
        lemma_ident_end_le(s, i + 1, j);
    }
}

/// First position at or after `i` holding `'\n'`, or the end of the input:
/// where scanning resumes after a line comment.
pub open spec fn line_comment_end(s: Seq<char>, i: int) -> int
    decreases s.len() - i,
    when 0 <= i <= s.len()
{
    if i < s.len() && s[i] != '\n' {
        line_comment_end(s, i + 1)
    } else {
        i
    }
}

pub proof fn lemma_line_comment_end_bounds(s: Seq<char>, i: int)
    requires
        0 <= i <= s.len(),
    ensures
        i <= line_comment_end(s, i) <= s.len(),
        line_comment_end(s, i) < s.len() ==> s[line_comment_end(s, i)] == '\n',
        forall|k: int| i <= k < line_comment_end(s, i) ==> s[k] != '\n',
    decreases s.len() - i,
{
    if i < s.len() && s[i] != '\n' {
        lemma_line_comment_end_bounds(s, i + 1);
    }
}

/// The token beginning at position `i`, with the position one past its end,
/// or `None` when the character at `i` starts no token. Operator prefixes are
/// resolved by greedy longest match with at most two characters of lookahead.
/// Line comments are not handled here: the caller treats `//` first.
pub open spec fn token_at(s: Seq<char>, i: int) -> Option<(KindModel, int)>
    recommends
        0 <= i < s.len(),
{
    let c = s[i];
    if c == '\n' {
        Some((KindModel::NewLine, i + 1))
    } else if c == '\r' {
        if i + 1 < s.len() && s[i + 1] == '\n' {
            Some((KindModel::NewLine, i + 2))
        } else {
            Some((KindModel::NewLine, i + 1))
        }
    } else if c == '=' {
        if i + 1 < s.len() && s[i + 1] == '=' {
            Some((KindModel::Equal, i + 2))
        } else if i + 1 < s.len() && s[i + 1] == '>' {
            Some((KindModel::Arrow, i + 2))
        } else {
            Some((KindModel::Assign, i + 1))
        }
    } else if c == '>' {
        if i + 1 < s.len() && s[i + 1] == '>' {
            Some((KindModel::Forward, i + 2))
        } else if i + 1 < s.len() && s[i + 1] == '=' {
            Some((KindModel::GreaterThanOrEqual, i + 2))
        } else {
            Some((KindModel::GreaterThan, i + 1))
        }
    } else if c == '<' {
        if i + 1 < s.len() && s[i + 1] == '=' {
            Some((KindModel::LessThanOrEqual, i + 2))
        } else {
            Some((KindModel::LessThan, i + 1))
        }
    } else if c == '!' {
        if i + 1 < s.len() && s[i + 1] == '=' {
            Some((KindModel::NotEqual, i + 2))
        } else {
            Some((KindModel::Exclamation, i + 1))
        }
    } else if c == '|' {
        if i + 1 < s.len() && s[i + 1] == '|' {
            Some((KindModel::LogicOr, i + 2))
        } else {
            Some((KindModel::Pipe, i + 1))
        }
    } else if c == '&' {
        if i + 1 < s.len() && s[i + 1] == '&' {
            Some((KindModel::LogicAnd, i + 2))
        } else {
            Some((KindModel::Combine, i + 1))
        }
    } else if c == '+' {
        if i + 1 < s.len() && s[i + 1] == '+' {
            Some((KindModel::Concat, i + 2))
        } else {
            Some((KindModel::Plus, i + 1))
        }
    } else if c == '?' {
        if i + 1 < s.len() && s[i + 1] == '?' {
            Some((KindModel::UnwrapOr, i + 2))
        } else {
            Some((KindModel::Unwrap, i + 1))
        }
    } else if c == '.' {
        if i + 2 < s.len() && s[i + 1] == '.' && s[i + 2] == '.' {
            Some((KindModel::Ellipsis, i + 3))
        } else if i + 1 < s.len() && s[i + 1] == '.' {
            Some((KindModel::Range, i + 2))
        } else {
            Some((KindModel::Dot, i + 1))
        }
    } else if c == '/' {
        Some((KindModel::Slash, i + 1))
    } else if c == '-' {
        Some((KindModel::Minus, i + 1))
    } else if c == '*' {
        Some((KindModel::Asterisk, i + 1))
    } else if c == '^' {
        Some((KindModel::Cast, i + 1))
    } else if c == '{' {
        Some((KindModel::LeftBrace, i + 1))
    } else if c == '}' {
        Some((KindModel::RightBrace, i + 1))
    } else if c == '[' {
        Some((KindModel::LeftBracket, i + 1))
    } else if c == ']' {
        Some((KindModel::RightBracket, i + 1))
    } else if c == '(' {
        Some((KindModel::LeftParen, i + 1))
    } else if c == ')' {
        Some((KindModel::RightParen, i + 1))
    } else if c == '#' {
        Some((KindModel::Hash, i + 1))
    } else if c == ':' {
        Some((KindModel::Colon, i + 1))
    } else if c == ',' {
        Some((KindModel::Comma, i + 1))
    } else if is_ident_start(c) {
        let j = ident_end(s, i);
        Some((classify_spec(s.subrange(i, j)), j))
    } else {
        None
    }
}

/// The token at a valid position starts no earlier than `i + 1` past it and
/// stays within the input.
pub proof fn lemma_token_at_bounds(s: Seq<char>, i: int)
    requires
        0 <= i < s.len(),
    ensures
        match token_at(s, i) {
            Some((k, j)) => i < j <= s.len(),
            None => true,
        },
{
    if is_ident_start(s[i]) {
        lemma_ident_end_bounds(s, i);
    }
}

/// The scan of the whole input from position `i` on: the remaining token
/// sequence, or `None` once an unrecognized character is reached. Blanks are
/// skipped; `//` starts a comment running up to (not including) the next
/// `'\n'`; everything else is `token_at`.
pub open spec fn lex_from(s: Seq<char>, i: int) -> Option<Seq<TokenModel>>
    decreases s.len() - i,
    when 0 <= i <= s.len()
    via lex_from_decreases
{
    if i >= s.len() {
        Some(Seq::empty())
    } else if is_blank(s[i]) {
        lex_from(s, i + 1)
    } else if s[i] == '/' && i + 1 < s.len() && s[i + 1] == '/' {
        lex_from(s, line_comment_end(s, i + 2))
    } else {
        match token_at(s, i) {
            Some((kind, j)) => match lex_from(s, j) {
                Some(rest) => Some(
                    seq![TokenModel { file_id: 0, start: i as nat, end: j as nat, kind }] + rest,
                ),
                None => None,
            },
            None => None,
        }
    }
}

#[via_fn]
proof fn lex_from_decreases(s: Seq<char>, i: int) {
    if 0 <= i < s.len() {
        if s[i] == '/' && i + 1 < s.len() && s[i + 1] == '/' {
            lemma_line_comment_end_bounds(s, i + 2);
        } else {
            lemma_token_at_bounds(s, i);
        }
    }
}

/// The models of a sequence of tokens.
pub open spec fn token_models(ts: Seq<Token>) -> Seq<TokenModel> {
    ts.map_values(|t: Token| t@)
}

/// Character-sequence equality of two string slices.
pub fn str_eq(a: &str, b: &str) -> (r: bool)
    ensures
        r == (a@ == b@),
{
    let na = a.unicode_len();
    let nb = b.unicode_len();
    if na != nb {
        return false;
    }
    let mut i: usize = 0;
    while i < na
        invariant
            i <= na,
            na == a@.len(),
            nb == b@.len(),
            na == nb,
            forall|k: int| 0 <= k < i ==> a@[k] == b@[k],
        decreases na - i,
    {
        if a.get_char(i) != b.get_char(i) {
            return false;
        }
        i += 1;
    }
    proof {
        assert(a@ =~= b@);
    }
    true
}

/// Classifies a finished identifier run: a reserved-keyword kind for one of
/// the 29 keyword spellings, else a user identifier carrying the spelling.
pub fn lookup_keyword(name: &str) -> (t: TokenType)
    ensures
        t@ == classify_spec(name@),
{
    if str_eq(name, "let") {
        TokenType::Let
    } else if str_eq(name, "match") {
        TokenType::Match
    } else if str_eq(name, "if") {
        TokenType::If
    } else if str_eq(name, "then") {
        TokenType::Then
    } else if str_eq(name, "else") {
        TokenType::Else
    } else if str_eq(name, "for") {
        TokenType::For
    } else if str_eq(name, "next") {
        TokenType::Next
    } else if str_eq(name, "in") {
        TokenType::In
    } else if str_eq(name, "branch") {
        TokenType::Branch
    } else if str_eq(name, "each") {
        TokenType::Each
    } else if str_eq(name, "mix") {
        TokenType::Mix
    } else if str_eq(name, "which") {
        TokenType::Which
    } else if str_eq(name, "where") {
        TokenType::Where
    } else if str_eq(name, "only") {
        TokenType::Only
    } else if str_eq(name, "within") {
        TokenType::Within
    } else if str_eq(name, "into") {
        TokenType::Into
    } else if str_eq(name, "regular") {
        TokenType::Regular
    } else if str_eq(name, "template") {
        TokenType::Template
    } else if str_eq(name, "to") {
        TokenType::To
    } else if str_eq(name, "namespace") {
        TokenType::Namespace
    } else if str_eq(name, "use") {
        TokenType::Use
    } else if str_eq(name, "function") {
        TokenType::Function
    } else if str_eq(name, "const") {
        TokenType::Const
    } else if str_eq(name, "enum") {
        TokenType::Enum
    } else if str_eq(name, "struct") {
        TokenType::Struct
    } else if str_eq(name, "union") {
        TokenType::Union
    } else if str_eq(name, "trait") {
        TokenType::Trait
    } else if str_eq(name, "impl") {
        TokenType::Impl
    } else if str_eq(name, "alias") {
        TokenType::Alias
    } else {
        TokenType::Identifier(String::from_str(name))
    }
}

fn is_ident_start_char(c: char) -> (r: bool)
    ensures
        r == is_ident_start(c),
{
    let u = c as u32;
    (97 <= u && u <= 122) || (65 <= u && u <= 90) || c == '_'
}

fn is_ident_part_char(c: char) -> (r: bool)
    ensures
        r == is_ident_part(c),
{
    is_ident_start_char(c) || { let u = c as u32; 48 <= u && u <= 57 }
}

/// Whether the character at `at` is the expected one.
pub fn match_char(expected: char, chars: &Vec<char>, at: usize) -> (r: bool)
    ensures
        r == (at < chars@.len() && chars@[at as int] == expected),
{
    at < chars.len() && chars[at] == expected
}

/// Whether the two characters at `at` are the expected pair.
pub fn match_chars(expected: [char; 2], chars: &Vec<char>, at: usize) -> (r: bool)
    ensures
        r == (at + 1 < chars@.len() && chars@[at as int] == expected@[0] && chars@[at as int
            + 1] == expected@[1]),
{
    if at >= chars.len() {
        return false;
    }
    at + 1 < chars.len() && chars[at] == expected[0] && chars[at + 1] == expected[1]
}

/// Position where scanning resumes after a line comment entered at `from`:
/// the next `'\n'`, or the end of the input.
pub fn skip_comment(chars: &Vec<char>, from: usize) -> (next: usize)
    requires
        from <= chars@.len(),
    ensures
        next == line_comment_end(chars@, from as int),
        from <= next <= chars@.len(),
{
    let n = chars.len();
    let mut j = from;
    while j < n && chars[j] != '\n'
        invariant
            from <= j <= n,
            n == chars@.len(),
            line_comment_end(chars@, from as int) == line_comment_end(chars@, j as int),
        decreases n - j,
    {
        j += 1;
    }
    j
}

/// Builds a token spanning `[start, end)` of the current source unit.
pub fn new_token(token_type: TokenType, start: usize, end: usize) -> (t: Token)
    ensures
        t == (Token { location: Location { file_id: 0, start, end }, token_type }),
{
    Token { location: Location { file_id: 0, start, end }, token_type }
}

/// One scanner step that emits a token preserves the loop relation between
/// what has been emitted and what remains to scan.
proof fn lemma_push_token(s: Seq<char>, i: int, j: int, k: KindModel, prev: Seq<Token>, t: Token)
    requires
        0 <= i < s.len(),
        i < j <= s.len(),
        !is_blank(s[i]),
        !(s[i] == '/' && i + 1 < s.len() && s[i + 1] == '/'),
        token_at(s, i) == Some((k, j)),
        match lex_from(s, i) {
            Some(rest) => lex_from(s, 0) == Some(token_models(prev) + rest),
            None => lex_from(s, 0) is None,
        },
        t@ == (TokenModel { file_id: 0, start: i as nat, end: j as nat, kind: k }),
    ensures
        match lex_from(s, j) {
            Some(rest) => lex_from(s, 0) == Some(token_models(prev.push(t)) + rest),
            None => lex_from(s, 0) is None,
        },
{
    match lex_from(s, j) {
        Some(rest) => {
            assert(lex_from(s, i) == Some(seq![t@] + rest));
            assert(token_models(prev.push(t)) =~= token_models(prev) + seq![t@]);
            assert(token_models(prev) + (seq![t@] + rest) =~= token_models(prev.push(t)) + rest);
        },
        None => {
            assert(lex_from(s, i) is None);
        },
    }
}

/// Scans one source unit into its token sequence. Whitespace is consumed
/// silently; each line terminator yields one `NewLine`; `//` comments run to
/// the next `'\n'` (exclusive) or the end of the input; operators are
/// resolved by greedy longest match; identifier runs become keywords or
/// identifiers; any other character is a lexical error, and the partial
/// token sequence is discarded.
pub fn tokenize(program: &str) -> (r: Result<Vec<Token>, Error>)
    ensures
        match lex_from(program@, 0) {
            Some(toks) => r matches Ok(v) && token_models(v@) == toks,
            None => r matches Err(Error::LexerError(m)) && m@ == "unexpected char"@,
        },
{
    let ghost s = program@;
    let n = program.unicode_len();
    let mut chars: Vec<char> = Vec::new();
    let mut k: usize = 0;
    while k < n
        invariant
            k <= n,
            n == s.len(),
            s == program@,
            chars@ == s.subrange(0, k as int),
        decreases n - k,
    {
        chars.push(program.get_char(k));
        k += 1;
        proof {
            assert(chars@ =~= s.subrange(0, k as int));
        }
    }
    proof {
        assert(chars@ =~= s);
    }

    let mut tokens: Vec<Token> = Vec::new();
    let mut i: usize = 0;
    while i < n
        invariant
            i <= n,
            n == s.len(),
            s == program@,
            chars@ == s,
            match lex_from(s, i as int) {
                Some(rest) => lex_from(s, 0) == Some(token_models(tokens@) + rest),
                None => lex_from(s, 0) is None,
            },
        decreases n - i,
    {
        let ghost i0 = i as int;
        let ghost prev = tokens@;
        let c = chars[i];
        if c == ' ' || c == '\t' {
            i += 1;
        } else if c == '/' {
            if match_char('/', &chars, i + 1) {
                i = skip_comment(&chars, i + 2);
            } else {
                let t = new_token(TokenType::Slash, i, i + 1);
                proof {
                    lemma_push_token(s, i0, i0 + 1, KindModel::Slash, prev, t);
                }
                tokens.push(t);
                i += 1;
            }
        } else if c == '\n' {
            let t = new_token(TokenType::NewLine, i, i + 1);
            proof {
                lemma_push_token(s, i0, i0 + 1, KindModel::NewLine, prev, t);
            }
            tokens.push(t);
            i += 1;
        } else if c == '\r' {
            if match_char('\n', &chars, i + 1) {
                let t = new_token(TokenType::NewLine, i, i + 2);
                proof {
                    lemma_push_token(s, i0, i0 + 2, KindModel::NewLine, prev, t);
                }
                tokens.push(t);
                i += 2;
            } else {
                let t = new_token(TokenType::NewLine, i, i + 1);
                proof {
                    lemma_push_token(s, i0, i0 + 1, KindModel::NewLine, prev, t);
                }
                tokens.push(t);
                i += 1;
            }
        } else if c == '=' {
            if match_char('=', &chars, i + 1) {
                let t = new_token(TokenType::Equal, i, i + 2);
                proof {
                    lemma_push_token(s, i0, i0 + 2, KindModel::Equal, prev, t);
                }
                tokens.push(t);
                i += 2;
            } else if match_char('>', &chars, i + 1) {
                let t = new_token(TokenType::Arrow, i, i + 2);
                proof {
                    lemma_push_token(s, i0, i0 + 2, KindModel::Arrow, prev, t);
                }
                tokens.push(t);
                i += 2;
            } else {
                let t = new_token(TokenType::Assign, i, i + 1);
                proof {
                    lemma_push_token(s, i0, i0 + 1, KindModel::Assign, prev, t);
                }
                tokens.push(t);
                i += 1;
            }
        } else if c == '>' {
            if match_char('>', &chars, i + 1) {
                let t = new_token(TokenType::Forward, i, i + 2);
                proof {
                    lemma_push_token(s, i0, i0 + 2, KindModel::Forward, prev, t);
                }
                tokens.push(t);
                i += 2;
            } else if match_char('=', &chars, i + 1) {
                let t = new_token(TokenType::GreaterThanOrEqual, i, i + 2);
                proof {
                    lemma_push_token(s, i0, i0 + 2, KindModel::GreaterThanOrEqual, prev, t);
                }
                tokens.push(t);
                i += 2;
            } else {
                let t = new_token(TokenType::GreaterThan, i, i + 1);
                proof {
                    lemma_push_token(s, i0, i0 + 1, KindModel::GreaterThan, prev, t);
                }
                tokens.push(t);
                i += 1;
            }
        } else if c == '<' {
            if match_char('=', &chars, i + 1) {
                let t = new_token(TokenType::LessThanOrEqual, i, i + 2);
                proof {
                    lemma_push_token(s, i0, i0 + 2, KindModel::LessThanOrEqual, prev, t);
                }
                tokens.push(t);
                i += 2;
            } else {
                let t = new_token(TokenType::LessThan, i, i + 1);
                proof {
                    lemma_push_token(s, i0, i0 + 1, KindModel::LessThan, prev, t);
                }
                tokens.push(t);
                i += 1;
            }
        } else if c == '!' {
            if match_char('=', &chars, i + 1) {
                let t = new_token(TokenType::NotEqual, i, i + 2);
                proof {
                    lemma_push_token(s, i0, i0 + 2, KindModel::NotEqual, prev, t);
                }
                tokens.push(t);
                i += 2;
            } else {
                let t = new_token(TokenType::Exclamation, i, i + 1);
                proof {
                    lemma_push_token(s, i0, i0 + 1, KindModel::Exclamation, prev, t);
                }
                tokens.push(t);
                i += 1;
            }
        } else if c == '|' {
            if match_char('|', &chars, i + 1) {
                let t = new_token(TokenType::LogicOr, i, i + 2);
                proof {
                    lemma_push_token(s, i0, i0 + 2, KindModel::LogicOr, prev, t);
                }
                tokens.push(t);
                i += 2;
            } else {
                let t = new_token(TokenType::Pipe, i, i + 1);
                proof {
                    lemma_push_token(s, i0, i0 + 1, KindModel::Pipe, prev, t);
                }
                tokens.push(t);
                i += 1;
            }
        } else if c == '&' {
            if match_char('&', &chars, i + 1) {
                let t = new_token(TokenType::LogicAnd, i, i + 2);
                proof {
                    lemma_push_token(s, i0, i0 + 2, KindModel::LogicAnd, prev, t);
                }
                tokens.push(t);
                i += 2;
            } else {
                let t = new_token(TokenType::Combine, i, i + 1);
                proof {
                    lemma_push_token(s, i0, i0 + 1, KindModel::Combine, prev, t);
                }
                tokens.push(t);
                i += 1;
            }
        } else if c == '+' {
            if match_char('+', &chars, i + 1) {
                let t = new_token(TokenType::Concat, i, i + 2);
                proof {
                    lemma_push_token(s, i0, i0 + 2, KindModel::Concat, prev, t);
                }
                tokens.push(t);
                i += 2;
            } else {
                let t = new_token(TokenType::Plus, i, i + 1);
                proof {
                    lemma_push_token(s, i0, i0 + 1, KindModel::Plus, prev, t);
                }
                tokens.push(t);
                i += 1;
            }
        } else if c == '?' {
            if match_char('?', &chars, i + 1) {
                let t = new_token(TokenType::UnwrapOr, i, i + 2);
                proof {
                    lemma_push_token(s, i0, i0 + 2, KindModel::UnwrapOr, prev, t);
                }
                tokens.push(t);
                i += 2;
            } else {
                let t = new_token(TokenType::Unwrap, i, i + 1);
                proof {
                    lemma_push_token(s, i0, i0 + 1, KindModel::Unwrap, prev, t);
                }
                tokens.push(t);
                i += 1;
            }
        } else if c == '.' {
            if match_chars(['.', '.'], &chars, i + 1) {
                let t = new_token(TokenType::Ellipsis, i, i + 3);
                proof {
                    lemma_push_token(s, i0, i0 + 3, KindModel::Ellipsis, prev, t);
                }
                tokens.push(t);
                i += 3;
            } else if match_char('.', &chars, i + 1) {
                let t = new_token(TokenType::Range, i, i + 2);
                proof {
                    lemma_push_token(s, i0, i0 + 2, KindModel::Range, prev, t);
                }
                tokens.push(t);
                i += 2;
            } else {
                let t = new_token(TokenType::Dot, i, i + 1);
                proof {
                    lemma_push_token(s, i0, i0 + 1, KindModel::Dot, prev, t);
                }
                tokens.push(t);
                i += 1;
            }
        } else if c == '-' {
            let t = new_token(TokenType::Minus, i, i + 1);
            proof {
                lemma_push_token(s, i0, i0 + 1, KindModel::Minus, prev, t);
            }
            tokens.push(t);
            i += 1;
        } else if c == '*' {
            let t = new_token(TokenType::Asterisk, i, i + 1);
            proof {
                lemma_push_token(s, i0, i0 + 1, KindModel::Asterisk, prev, t);
            }
            tokens.push(t);
            i += 1;
        } else if c == '^' {
            let t = new_token(TokenType::Cast, i, i + 1);
            proof {
                lemma_push_token(s, i0, i0 + 1, KindModel::Cast, prev, t);
            }
            tokens.push(t);
            i += 1;
        } else if c == '{' {
            let t = new_token(TokenType::LeftBrace, i, i + 1);
            proof {
                lemma_push_token(s, i0, i0 + 1, KindModel::LeftBrace, prev, t);
            }
            tokens.push(t);
            i += 1;
        } else if c == '}' {
            let t = new_token(TokenType::RightBrace, i, i + 1);
            proof {
                lemma_push_token(s, i0, i0 + 1, KindModel::RightBrace, prev, t);
            }
            tokens.push(t);
            i += 1;
        } else if c == '[' {
            let t = new_token(TokenType::LeftBracket, i, i + 1);
            proof {
                lemma_push_token(s, i0, i0 + 1, KindModel::LeftBracket, prev, t);
            }
            tokens.push(t);
            i += 1;
        } else if c == ']' {
            let t = new_token(TokenType::RightBracket, i, i + 1);
            proof {
                lemma_push_token(s, i0, i0 + 1, KindModel::RightBracket, prev, t);
            }
            tokens.push(t);
            i += 1;
        } else if c == '(' {
            let t = new_token(TokenType::LeftParen, i, i + 1);
            proof {
                lemma_push_token(s, i0, i0 + 1, KindModel::LeftParen, prev, t);
            }
            tokens.push(t);
            i += 1;
        } else if c == ')' {
            let t = new_token(TokenType::RightParen, i, i + 1);
            proof {
                lemma_push_token(s, i0, i0 + 1, KindModel::RightParen, prev, t);
            }
            tokens.push(t);
            i += 1;
        } else if c == '#' {
            let t = new_token(TokenType::Hash, i, i + 1);
            proof {
                lemma_push_token(s, i0, i0 + 1, KindModel::Hash, prev, t);
            }
            tokens.push(t);
            i += 1;
        } else if c == ':' {
            let t = new_token(TokenType::Colon, i, i + 1);
            proof {
                lemma_push_token(s, i0, i0 + 1, KindModel::Colon, prev, t);
            }
            tokens.push(t);
            i += 1;
        } else if c == ',' {
            let t = new_token(TokenType::Comma, i, i + 1);
            proof {
                lemma_push_token(s, i0, i0 + 1, KindModel::Comma, prev, t);
            }
            tokens.push(t);
            i += 1;
        } else if is_ident_start_char(c) {
            let start = i;
            let mut j = i;
            while j < n && is_ident_part_char(chars[j])
                invariant
                    start <= j <= n,
                    n == s.len(),
                    chars@ == s,
                    ident_end(s, start as int) == ident_end(s, j as int),
                decreases n - j,
            {
                j += 1;
            }
            proof {
                assert(ident_end(s, start as int) == j as int);
            }
            let text = program.substring_char(start, j);
            let t = new_token(lookup_keyword(text), start, j);
            proof {
                lemma_ident_end_bounds(s, i0);
                assert(token_at(s, i0) == Some(
                    (classify_spec(s.subrange(i0, j as int)), j as int),
                ));
                lemma_push_token(
                    s,
                    i0,
                    j as int,
                    classify_spec(s.subrange(i0, j as int)),
                    prev,
                    t,
                );
            }
            tokens.push(t);
            i = j;
        } else {
            proof {
                assert(token_at(s, i0) is None);
                assert(lex_from(s, i0) is None);
            }
            return Err(Error::LexerError("unexpected char"));
        }
    }
    proof {
        assert(lex_from(s, n as int) == Some(Seq::<TokenModel>::empty()));
        assert(token_models(tokens@) + Seq::<TokenModel>::empty() =~= token_models(tokens@));
    }
    Ok(tokens)
}

} // verus!
