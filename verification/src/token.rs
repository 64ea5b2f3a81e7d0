//! Token model: token kinds, source locations, and their printable forms.

use vstd::prelude::*;
use vstd::string::StringExecFns;

verus! {

/// Source span of a token: `file_id` names the source unit, `start` and `end`
/// are half-open character offsets into it.
#[derive(Debug, Clone, PartialEq, Eq, Structural)]
pub struct Location {
    pub file_id: usize,
    pub start: usize,
    pub end: usize,
}

/// The digit character for a value below ten.
pub open spec fn digit_char(d: nat) -> char {
    if d == 0 {
        '0'
    } else if d == 1 {
        '1'
    } else if d == 2 {
        '2'
    } else if d == 3 {
        '3'
    } else if d == 4 {
        '4'
    } else if d == 5 {
        '5'
    } else if d == 6 {
        '6'
    } else if d == 7 {
        '7'
    } else if d == 8 {
        '8'
    } else {
        '9'
    }
}

/// Decimal representation of a natural number, without leading zeros
/// (a single `'0'` for zero).
pub open spec fn dec_rep(n: nat) -> Seq<char>
    decreases n,
{
    if n < 10 {
        seq![digit_char(n)]
    } else {
        dec_rep(n / 10) + seq![digit_char(n % 10)]
    }
}

fn digit_str(d: u64) -> (r: &'static str)
    requires
        d < 10,
    ensures
        r@ == seq![digit_char(d as nat)],
{
    let r: &'static str = match d {
        0 => "0",
        1 => "1",
        2 => "2",
        3 => "3",
        4 => "4",
        5 => "5",
        6 => "6",
        7 => "7",
        8 => "8",
        _ => "9",
    };
    proof {
        reveal_strlit("0");
        reveal_strlit("1");
        reveal_strlit("2");
        reveal_strlit("3");
        reveal_strlit("4");
        reveal_strlit("5");
        reveal_strlit("6");
        reveal_strlit("7");
        reveal_strlit("8");
        reveal_strlit("9");
        assert(r@ =~= seq![digit_char(d as nat)]);
    }
    r
}

/// Renders a number in decimal.
pub fn dec_string(n: u64) -> (r: String)
    ensures
        r@ == dec_rep(n as nat),
    decreases n,
{
    if n < 10 {
        String::from_str(digit_str(n))
    } else {
        let front = dec_string(n / 10);
        let r = front.concat(digit_str(n % 10));
        proof {
            assert(r@ =~= dec_rep(n as nat));
        }
        r
    }
}

/// The kind of a token, as a closed tagged union. Literal and named-operator
/// variants are declared for the downstream parser, though the scanner does
/// not yet produce them.
#[derive(Debug, Clone, PartialEq, Eq)]
pub enum TokenType {
    NewLine,
    Identifier(String),
    Integer(i64),
    Boolean(bool),
    Char(char),
    String(String),
    TemplateString(String),
    HashString(String),
    Regexp(String),
    LeftBrace,
    RightBrace,
    Assign,
    Forward,
    Pipe,
    NamedOperator(String),
    LogicOr,
    LogicAnd,
    Equal,
    NotEqual,
    GreaterThan,
    GreaterThanOrEqual,
    LessThan,
    LessThanOrEqual,
    Concat,
    Plus,
    Minus,
    Asterisk,
    Slash,
    UnwrapOr,
    Combine,
    Cast,
    Unwrap,
    Dot,
    LeftBracket,
    RightBracket,
    Arrow,
    Exclamation,
    LeftParen,
    RightParen,
    Hash,
    Range,
    Ellipsis,
    Colon,
    Comma,
    Let,
    Match,
    If,
    Then,
    Else,
    For,
    Next,
    In,
    Branch,
    Each,
    Mix,
    Which,
    Where,
    Only,
    Within,
    Into,
    Regular,
    Template,
    To,
    Namespace,
    Use,
    Function,
    Const,
    Enum,
    Struct,
    Union,
    Trait,
    Impl,
    Alias,
}

/// Mathematical model of a token kind: text payloads are character sequences.
pub enum KindModel {
    NewLine,
    Identifier(Seq<char>),
    Integer(int),
    Boolean(bool),
    Char(char),
    StringLit(Seq<char>),
    TemplateString(Seq<char>),
    HashString(Seq<char>),
    Regexp(Seq<char>),
    LeftBrace,
    RightBrace,
    Assign,
    Forward,
    Pipe,
    NamedOperator(Seq<char>),
    LogicOr,
    LogicAnd,
    Equal,
    NotEqual,
    GreaterThan,
    GreaterThanOrEqual,
    LessThan,
    LessThanOrEqual,
    Concat,
    Plus,
    Minus,
    Asterisk,
    Slash,
    UnwrapOr,
    Combine,
    Cast,
    Unwrap,
    Dot,
    LeftBracket,
    RightBracket,
    Arrow,
    Exclamation,
    LeftParen,
    RightParen,
    Hash,
    Range,
    Ellipsis,
    Colon,
    Comma,
    Let,
    Match,
    If,
    Then,
    Else,
    For,
    Next,
    In,
    Branch,
    Each,
    Mix,
    Which,
    Where,
    Only,
    Within,
    Into,
    Regular,
    Template,
    To,
    Namespace,
    Use,
    Function,
    Const,
    Enum,
    Struct,
    Union,
    Trait,
    Impl,
    Alias,
}

impl View for TokenType {
    type V = KindModel;

    open spec fn view(&self) -> KindModel {
        match self {
            TokenType::NewLine => KindModel::NewLine,
            TokenType::Identifier(s) => KindModel::Identifier(s@),
            TokenType::Integer(v) => KindModel::Integer(*v as int),
            TokenType::Boolean(b) => KindModel::Boolean(*b),
            TokenType::Char(c) => KindModel::Char(*c),
            TokenType::String(s) => KindModel::StringLit(s@),
            TokenType::TemplateString(s) => KindModel::TemplateString(s@),
            TokenType::HashString(s) => KindModel::HashString(s@),
            TokenType::Regexp(s) => KindModel::Regexp(s@),
            TokenType::NamedOperator(s) => KindModel::NamedOperator(s@),
            TokenType::LeftBrace => KindModel::LeftBrace,
            TokenType::RightBrace => KindModel::RightBrace,
            TokenType::Assign => KindModel::Assign,
            TokenType::Forward => KindModel::Forward,
            TokenType::Pipe => KindModel::Pipe,
            TokenType::LogicOr => KindModel::LogicOr,
            TokenType::LogicAnd => KindModel::LogicAnd,
            TokenType::Equal => KindModel::Equal,
            TokenType::NotEqual => KindModel::NotEqual,
            TokenType::GreaterThan => KindModel::GreaterThan,
            TokenType::GreaterThanOrEqual => KindModel::GreaterThanOrEqual,
            TokenType::LessThan => KindModel::LessThan,
            TokenType::LessThanOrEqual => KindModel::LessThanOrEqual,
            TokenType::Concat => KindModel::Concat,
            TokenType::Plus => KindModel::Plus,
            TokenType::Minus => KindModel::Minus,
            TokenType::Asterisk => KindModel::Asterisk,
            TokenType::Slash => KindModel::Slash,
            TokenType::UnwrapOr => KindModel::UnwrapOr,
            TokenType::Combine => KindModel::Combine,
            TokenType::Cast => KindModel::Cast,
            TokenType::Unwrap => KindModel::Unwrap,
            TokenType::Dot => KindModel::Dot,
            TokenType::LeftBracket => KindModel::LeftBracket,
            TokenType::RightBracket => KindModel::RightBracket,
            TokenType::Arrow => KindModel::Arrow,
            TokenType::Exclamation => KindModel::Exclamation,
            TokenType::LeftParen => KindModel::LeftParen,
            TokenType::RightParen => KindModel::RightParen,
            TokenType::Hash => KindModel::Hash,
            TokenType::Range => KindModel::Range,
            TokenType::Ellipsis => KindModel::Ellipsis,
            TokenType::Colon => KindModel::Colon,
            TokenType::Comma => KindModel::Comma,
            TokenType::Let => KindModel::Let,
            TokenType::Match => KindModel::Match,
            TokenType::If => KindModel::If,
            TokenType::Then => KindModel::Then,
            TokenType::Else => KindModel::Else,
            TokenType::For => KindModel::For,
            TokenType::Next => KindModel::Next,
            TokenType::In => KindModel::In,
            TokenType::Branch => KindModel::Branch,
            TokenType::Each => KindModel::Each,
            TokenType::Mix => KindModel::Mix,
            TokenType::Which => KindModel::Which,
            TokenType::Where => KindModel::Where,
            TokenType::Only => KindModel::Only,
            TokenType::Within => KindModel::Within,
            TokenType::Into => KindModel::Into,
            TokenType::Regular => KindModel::Regular,
            TokenType::Template => KindModel::Template,
            TokenType::To => KindModel::To,
            TokenType::Namespace => KindModel::Namespace,
            TokenType::Use => KindModel::Use,
            TokenType::Function => KindModel::Function,
            TokenType::Const => KindModel::Const,
            TokenType::Enum => KindModel::Enum,
            TokenType::Struct => KindModel::Struct,
            TokenType::Union => KindModel::Union,
            TokenType::Trait => KindModel::Trait,
            TokenType::Impl => KindModel::Impl,
            TokenType::Alias => KindModel::Alias,
        }
    }
}

/// A token: a source location together with a kind.
#[derive(Debug, Clone, PartialEq, Eq)]
pub struct Token {
    pub location: Location,
    pub token_type: TokenType,
}

/// Mathematical model of a token.
pub struct TokenModel {
    pub file_id: nat,
    pub start: nat,
    pub end: nat,
    pub kind: KindModel,
}

impl View for Token {
    type V = TokenModel;

    open spec fn view(&self) -> TokenModel {
        TokenModel {
            file_id: self.location.file_id as nat,
            start: self.location.start as nat,
            end: self.location.end as nat,
            kind: self.token_type@,
        }
    }
}

/// The rendering of a location used by diagnostics.
pub open spec fn location_display(file_id: nat, start: nat, end: nat) -> Seq<char> {
    "file id: "@ + dec_rep(file_id) + ", start: "@ + dec_rep(start) + ", end: "@ + dec_rep(end)
}

impl Location {
    /// Renders the location as `file id: F, start: S, end: E`.
    pub fn display_string(&self) -> (r: String)
        ensures
            r@ == location_display(self.file_id as nat, self.start as nat, self.end as nat),
    {
        let mut r = String::from_str("file id: ");
        r.append(dec_string(self.file_id as u64).as_str());
        r.append(", start: ");
        r.append(dec_string(self.start as u64).as_str());
        r.append(", end: ");
        r.append(dec_string(self.end as u64).as_str());
        r
    }
}

/// Decimal representation of an integer, with a leading `'-'` when negative.
pub open spec fn int_rep(i: int) -> Seq<char> {
    if i >= 0 {
        dec_rep(i as nat)
    } else {
        seq!['-'] + dec_rep((-i) as nat)
    }
}

/// The canonical printable form of a token kind: the source spelling for
/// punctuation, operators and keywords, the underlying text for identifier
/// and literal kinds, and `"\n"` for `NewLine` regardless of its source form.
pub open spec fn print_spec(k: KindModel) -> Seq<char> {
    match k {
        KindModel::NewLine => "\n"@,
        KindModel::Identifier(s) => s,
        KindModel::Integer(i) => int_rep(i),
        KindModel::Boolean(b) => if b {
            "true"@
        } else {
            "false"@
        },
        KindModel::Char(c) => seq![c],
        KindModel::StringLit(s) => s,
        KindModel::TemplateString(s) => s,
        KindModel::HashString(s) => s,
        KindModel::Regexp(s) => s,
        KindModel::NamedOperator(s) => s,
        KindModel::LeftBrace => "{"@,
        KindModel::RightBrace => "}"@,
        KindModel::Assign => "="@,
        KindModel::Forward => ">>"@,
        KindModel::Pipe => "|"@,
        KindModel::LogicOr => "||"@,
        KindModel::LogicAnd => "&&"@,
        KindModel::Equal => "=="@,
        KindModel::NotEqual => "!="@,
        KindModel::GreaterThan => ">"@,
        KindModel::GreaterThanOrEqual => ">="@,
        KindModel::LessThan => "<"@,
        KindModel::LessThanOrEqual => "<="@,
        KindModel::Concat => "++"@,
        KindModel::Plus => "+"@,
        KindModel::Minus => "-"@,
        KindModel::Asterisk => "*"@,
        KindModel::Slash => "/"@,
        KindModel::UnwrapOr => "??"@,
        KindModel::Combine => "&"@,
        KindModel::Cast => "^"@,
        KindModel::Unwrap => "?"@,
        KindModel::Dot => "."@,
        KindModel::LeftBracket => "["@,
        KindModel::RightBracket => "]"@,
        KindModel::Arrow => "=>"@,
        KindModel::Exclamation => "!"@,
        KindModel::LeftParen => "("@,
        KindModel::RightParen => ")"@,
        KindModel::Hash => "#"@,
        KindModel::Range => ".."@,
        KindModel::Ellipsis => "..."@,
        KindModel::Colon => ":"@,
        KindModel::Comma => ","@,
        KindModel::Let => "let"@,
        KindModel::Match => "match"@,
        KindModel::If => "if"@,
        KindModel::Then => "then"@,
        KindModel::Else => "else"@,
        KindModel::For => "for"@,
        KindModel::Next => "next"@,
        KindModel::In => "in"@,
        KindModel::Branch => "branch"@,
        KindModel::Each => "each"@,
        KindModel::Mix => "mix"@,
        KindModel::Which => "which"@,
        KindModel::Where => "where"@,
        KindModel::Only => "only"@,
        KindModel::Within => "within"@,
        KindModel::Into => "into"@,
        KindModel::Regular => "regular"@,
        KindModel::Template => "template"@,
        KindModel::To => "to"@,
        KindModel::Namespace => "namespace"@,
        KindModel::Use => "use"@,
        KindModel::Function => "function"@,
        KindModel::Const => "const"@,
        KindModel::Enum => "enum"@,
        KindModel::Struct => "struct"@,
        KindModel::Union => "union"@,
        KindModel::Trait => "trait"@,
        KindModel::Impl => "impl"@,
        KindModel::Alias => "alias"@,
    }
}

/// Relies on char::to_string (through core::fmt::Display for char): the
/// returned string holds exactly the one given character.
#[verifier::external_body]
fn char_to_string(c: char) -> (r: String)
    ensures
        r@ == seq![c],
{
    c.to_string()
}

impl TokenType {
    /// Renders the kind in its canonical printable form.
    pub fn print_form(&self) -> (r: String)
        ensures
            r@ == print_spec(self@),
    {
        match self {
            TokenType::NewLine => String::from_str("\n"),
            TokenType::Identifier(s) => s.clone(),
            TokenType::Integer(v) => {
                let n: i64 = *v;
                if n >= 0 {
                    dec_string(n as u64)
                } else {
                    let wide: i128 = n as i128;
                    let mag: u64 = (-wide) as u64;
                    let mut r = String::from_str("-");
                    r.append(dec_string(mag).as_str());
                    proof {
                        reveal_strlit("-");
                        assert(r@ =~= int_rep(n as int));
                    }
                    r
                }
            },
            TokenType::Boolean(b) => {
                if *b {
                    String::from_str("true")
                } else {
                    String::from_str("false")
                }
            },
            TokenType::Char(c) => char_to_string(*c),
            TokenType::String(s) => s.clone(),
            TokenType::TemplateString(s) => s.clone(),
            TokenType::HashString(s) => s.clone(),
            TokenType::Regexp(s) => s.clone(),
            TokenType::NamedOperator(s) => s.clone(),
            TokenType::LeftBrace => String::from_str("{"),
            TokenType::RightBrace => String::from_str("}"),
            TokenType::Assign => String::from_str("="),
            TokenType::Forward => String::from_str(">>"),
            TokenType::Pipe => String::from_str("|"),
            TokenType::LogicOr => String::from_str("||"),
            TokenType::LogicAnd => String::from_str("&&"),
            TokenType::Equal => String::from_str("=="),
            TokenType::NotEqual => String::from_str("!="),
            TokenType::GreaterThan => String::from_str(">"),
            TokenType::GreaterThanOrEqual => String::from_str(">="),
            TokenType::LessThan => String::from_str("<"),
            TokenType::LessThanOrEqual => String::from_str("<="),
            TokenType::Concat => String::from_str("++"),
            TokenType::Plus => String::from_str("+"),
            TokenType::Minus => String::from_str("-"),
            TokenType::Asterisk => String::from_str("*"),
            TokenType::Slash => String::from_str("/"),
            TokenType::UnwrapOr => String::from_str("??"),
            TokenType::Combine => String::from_str("&"),
            TokenType::Cast => String::from_str("^"),
            TokenType::Unwrap => String::from_str("?"),
            TokenType::Dot => String::from_str("."),
            TokenType::LeftBracket => String::from_str("["),
            TokenType::RightBracket => String::from_str("]"),
            TokenType::Arrow => String::from_str("=>"),
            TokenType::Exclamation => String::from_str("!"),
            TokenType::LeftParen => String::from_str("("),
            TokenType::RightParen => String::from_str(")"),
            TokenType::Hash => String::from_str("#"),
            TokenType::Range => String::from_str(".."),
            TokenType::Ellipsis => String::from_str("..."),
            TokenType::Colon => String::from_str(":"),
            TokenType::Comma => String::from_str(","),
            TokenType::Let => String::from_str("let"),
            TokenType::Match => String::from_str("match"),
            TokenType::If => String::from_str("if"),
            TokenType::Then => String::from_str("then"),
            TokenType::Else => String::from_str("else"),
            TokenType::For => String::from_str("for"),
            TokenType::Next => String::from_str("next"),
            TokenType::In => String::from_str("in"),
            TokenType::Branch => String::from_str("branch"),
            TokenType::Each => String::from_str("each"),
            TokenType::Mix => String::from_str("mix"),
            TokenType::Which => String::from_str("which"),
            TokenType::Where => String::from_str("where"),
            TokenType::Only => String::from_str("only"),
            TokenType::Within => String::from_str("within"),
            TokenType::Into => String::from_str("into"),
            TokenType::Regular => String::from_str("regular"),
            TokenType::Template => String::from_str("template"),
            TokenType::To => String::from_str("to"),
            TokenType::Namespace => String::from_str("namespace"),
            TokenType::Use => String::from_str("use"),
            TokenType::Function => String::from_str("function"),
            TokenType::Const => String::from_str("const"),
            TokenType::Enum => String::from_str("enum"),
            TokenType::Struct => String::from_str("struct"),
            TokenType::Union => String::from_str("union"),
            TokenType::Trait => String::from_str("trait"),
            TokenType::Impl => String::from_str("impl"),
            TokenType::Alias => String::from_str("alias"),
        }
    }
}

/// The rendering of a whole token: its location, then ` - `, then the
/// printable form of its kind.
pub open spec fn token_display(t: TokenModel) -> Seq<char> {
    location_display(t.file_id, t.start, t.end) + " - "@ + print_spec(t.kind)
}

impl Token {
    /// Renders the token as its location, ` - `, and its kind's printable form.
    pub fn display_string(&self) -> (r: String)
        ensures
            r@ == token_display(self@),
    {
        let mut r = self.location.display_string();
        r.append(" - ");
        r.append(self.token_type.print_form().as_str());
        r
    }
}

} // verus!
