//! Quantified properties of the scanner, proved against its model.

use vstd::prelude::*;

use crate::lexer::classify_spec;
use crate::lexer::ident_end;
use crate::lexer::is_blank;
use crate::lexer::is_ident_part;
use crate::lexer::is_ident_start;
use crate::lexer::lemma_ident_end_bounds;
use crate::lexer::lemma_ident_end_le;
use crate::lexer::lemma_line_comment_end_bounds;
use crate::lexer::lemma_token_at_bounds;
use crate::lexer::lex_from;
use crate::lexer::line_comment_end;
use crate::lexer::token_at;
use crate::token::print_spec;
use crate::token::KindModel;
use crate::token::TokenModel;

verus! {

/// The input consists of spaces and horizontal tabs alone.
pub open spec fn all_blank(s: Seq<char>) -> bool {
    forall|k: int| 0 <= k < s.len() ==> is_blank(s[k])
}

proof fn lemma_whitespace_from(s: Seq<char>, i: int)
    requires
        0 <= i <= s.len(),
        all_blank(s),
    ensures
        lex_from(s, i) == Some(Seq::<TokenModel>::empty()),
    decreases s.len() - i,
{
    if i < s.len() {
        lemma_whitespace_from(s, i + 1);
    }
}

/// Whitespace elision: an input consisting solely of spaces and tabs scans
/// to the empty token sequence.
pub proof fn lemma_whitespace_elision(s: Seq<char>)
    requires
        all_blank(s),
    ensures
        lex_from(s, 0) == Some(Seq::<TokenModel>::empty()),
{
    lemma_whitespace_from(s, 0);
}

/// Longest match: wherever the lookahead required for the longer spelling of
/// an ambiguous operator prefix is present, the longer form is taken, and a
/// `//` pair enters comment handling rather than yielding two slashes.
pub proof fn lemma_longest_match(s: Seq<char>, i: int)
    requires
        0 <= i,
        i + 1 < s.len(),
    ensures
        s[i] == '.' && i + 2 < s.len() && s[i + 1] == '.' && s[i + 2] == '.' ==> token_at(s, i)
            == Some((KindModel::Ellipsis, i + 3)),
        s[i] == '.' && s[i + 1] == '.' && !(i + 2 < s.len() && s[i + 2] == '.') ==> token_at(s, i)
            == Some((KindModel::Range, i + 2)),
        s[i] == '=' && s[i + 1] == '=' ==> token_at(s, i) == Some((KindModel::Equal, i + 2)),
        s[i] == '=' && s[i + 1] == '>' ==> token_at(s, i) == Some((KindModel::Arrow, i + 2)),
        s[i] == '>' && s[i + 1] == '>' ==> token_at(s, i) == Some((KindModel::Forward, i + 2)),
        s[i] == '>' && s[i + 1] == '=' ==> token_at(s, i) == Some(
            (KindModel::GreaterThanOrEqual, i + 2),
        ),
        s[i] == '<' && s[i + 1] == '=' ==> token_at(s, i) == Some(
            (KindModel::LessThanOrEqual, i + 2),
        ),
        s[i] == '!' && s[i + 1] == '=' ==> token_at(s, i) == Some((KindModel::NotEqual, i + 2)),
        s[i] == '|' && s[i + 1] == '|' ==> token_at(s, i) == Some((KindModel::LogicOr, i + 2)),
        s[i] == '&' && s[i + 1] == '&' ==> token_at(s, i) == Some((KindModel::LogicAnd, i + 2)),
        s[i] == '+' && s[i + 1] == '+' ==> token_at(s, i) == Some((KindModel::Concat, i + 2)),
        s[i] == '?' && s[i + 1] == '?' ==> token_at(s, i) == Some((KindModel::UnwrapOr, i + 2)),
        s[i] == '/' && s[i + 1] == '/' ==> lex_from(s, i) == lex_from(
            s,
            line_comment_end(s, i + 2),
        ),
{
    if s[i] == '/' && s[i + 1] == '/' {
        lemma_line_comment_end_bounds(s, i + 2);
    }
}

/// Keyword totality: each of the 29 keyword spellings classifies to its
/// keyword kind, and every other spelling to an identifier carrying it.
pub proof fn lemma_keyword_totality(name: Seq<char>)
    ensures
        classify_spec("let"@) == KindModel::Let,
        classify_spec("match"@) == KindModel::Match,
        classify_spec("if"@) == KindModel::If,
        classify_spec("then"@) == KindModel::Then,
        classify_spec("else"@) == KindModel::Else,
        classify_spec("for"@) == KindModel::For,
        classify_spec("next"@) == KindModel::Next,
        classify_spec("in"@) == KindModel::In,
        classify_spec("branch"@) == KindModel::Branch,
        classify_spec("each"@) == KindModel::Each,
        classify_spec("mix"@) == KindModel::Mix,
        classify_spec("which"@) == KindModel::Which,
        classify_spec("where"@) == KindModel::Where,
        classify_spec("only"@) == KindModel::Only,
        classify_spec("within"@) == KindModel::Within,
        classify_spec("into"@) == KindModel::Into,
        classify_spec("regular"@) == KindModel::Regular,
        classify_spec("template"@) == KindModel::Template,
        classify_spec("to"@) == KindModel::To,
        classify_spec("namespace"@) == KindModel::Namespace,
        classify_spec("use"@) == KindModel::Use,
        classify_spec("function"@) == KindModel::Function,
        classify_spec("const"@) == KindModel::Const,
        classify_spec("enum"@) == KindModel::Enum,
        classify_spec("struct"@) == KindModel::Struct,
        classify_spec("union"@) == KindModel::Union,
        classify_spec("trait"@) == KindModel::Trait,
        classify_spec("impl"@) == KindModel::Impl,
        classify_spec("alias"@) == KindModel::Alias,
        name != "let"@ && name != "match"@ && name != "if"@ && name != "then"@ && name != "else"@
            && name != "for"@ && name != "next"@ && name != "in"@ && name != "branch"@ && name
            != "each"@ && name != "mix"@ && name != "which"@ && name != "where"@ && name != "only"@
            && name != "within"@ && name != "into"@ && name != "regular"@ && name != "template"@
            && name != "to"@ && name != "namespace"@ && name != "use"@ && name != "function"@
            && name != "const"@ && name != "enum"@ && name != "struct"@ && name != "union"@ && name
            != "trait"@ && name != "impl"@ && name != "alias"@ ==> classify_spec(name)
            == KindModel::Identifier(name),
{
    reveal_strlit("let");
    reveal_strlit("match");
    reveal_strlit("if");
    reveal_strlit("then");
    reveal_strlit("else");
    reveal_strlit("for");
    reveal_strlit("next");
    reveal_strlit("in");
    reveal_strlit("branch");
    reveal_strlit("each");
    reveal_strlit("mix");
    reveal_strlit("which");
    reveal_strlit("where");
    reveal_strlit("only");
    reveal_strlit("within");
    reveal_strlit("into");
    reveal_strlit("regular");
    reveal_strlit("template");
    reveal_strlit("to");
    reveal_strlit("namespace");
    reveal_strlit("use");
    reveal_strlit("function");
    reveal_strlit("const");
    reveal_strlit("enum");
    reveal_strlit("struct");
    reveal_strlit("union");
    reveal_strlit("trait");
    reveal_strlit("impl");
    reveal_strlit("alias");
    assert("let"@ =~= seq!['l', 'e', 't']);
    assert("match"@ =~= seq!['m', 'a', 't', 'c', 'h']);
    assert("if"@ =~= seq!['i', 'f']);
    assert("then"@ =~= seq!['t', 'h', 'e', 'n']);
    assert("else"@ =~= seq!['e', 'l', 's', 'e']);
    assert("for"@ =~= seq!['f', 'o', 'r']);
    assert("next"@ =~= seq!['n', 'e', 'x', 't']);
    assert("in"@ =~= seq!['i', 'n']);
    assert("branch"@ =~= seq!['b', 'r', 'a', 'n', 'c', 'h']);
    assert("each"@ =~= seq!['e', 'a', 'c', 'h']);
    assert("mix"@ =~= seq!['m', 'i', 'x']);
    assert("which"@ =~= seq!['w', 'h', 'i', 'c', 'h']);
    assert("where"@ =~= seq!['w', 'h', 'e', 'r', 'e']);
    assert("only"@ =~= seq!['o', 'n', 'l', 'y']);
    assert("within"@ =~= seq!['w', 'i', 't', 'h', 'i', 'n']);
    assert("into"@ =~= seq!['i', 'n', 't', 'o']);
    assert("regular"@ =~= seq!['r', 'e', 'g', 'u', 'l', 'a', 'r']);
    assert("template"@ =~= seq!['t', 'e', 'm', 'p', 'l', 'a', 't', 'e']);
    assert("to"@ =~= seq!['t', 'o']);
    assert("namespace"@ =~= seq!['n', 'a', 'm', 'e', 's', 'p', 'a', 'c', 'e']);
    assert("use"@ =~= seq!['u', 's', 'e']);
    assert("function"@ =~= seq!['f', 'u', 'n', 'c', 't', 'i', 'o', 'n']);
    assert("const"@ =~= seq!['c', 'o', 'n', 's', 't']);
    assert("enum"@ =~= seq!['e', 'n', 'u', 'm']);
    assert("struct"@ =~= seq!['s', 't', 'r', 'u', 'c', 't']);
    assert("union"@ =~= seq!['u', 'n', 'i', 'o', 'n']);
    assert("trait"@ =~= seq!['t', 'r', 'a', 'i', 't']);
    assert("impl"@ =~= seq!['i', 'm', 'p', 'l']);
    assert("alias"@ =~= seq!['a', 'l', 'i', 'a', 's']);
}

/// An input that is exactly one token scans to that one token.
proof fn lemma_lex_single(s: Seq<char>, k: KindModel)
    requires
        s.len() > 0,
        !is_blank(s[0]),
        !(s[0] == '/' && 1 < s.len() && s[1] == '/'),
        token_at(s, 0) == Some((k, s.len() as int)),
    ensures
        lex_from(s, 0) == Some(
            seq![TokenModel { file_id: 0, start: 0, end: s.len(), kind: k }],
        ),
{
    let tm = TokenModel { file_id: 0, start: 0, end: s.len(), kind: k };
    assert(lex_from(s, s.len() as int) == Some(Seq::<TokenModel>::empty()));
    assert(seq![tm] + Seq::<TokenModel>::empty() =~= seq![tm]);
}

/// An input made of one maximal identifier run scans to the one token that
/// its classification gives.
proof fn lemma_ident_run(s: Seq<char>)
    requires
        s.len() > 0,
        is_ident_start(s[0]),
        forall|k: int| 0 <= k < s.len() ==> is_ident_part(s[k]),
    ensures
        lex_from(s, 0) == Some(
            seq![TokenModel { file_id: 0, start: 0, end: s.len(), kind: classify_spec(s) }],
        ),
{
    lemma_ident_end_bounds(s, 0);
    assert(ident_end(s, 0) == s.len());
    assert(s.subrange(0, s.len() as int) =~= s);
    lemma_lex_single(s, classify_spec(s));
}

/// Round trip of one kind: scanning its printable form yields exactly one
/// token of that kind, spanning the whole input.
pub open spec fn round_trips(k: KindModel) -> bool {
    lex_from(print_spec(k), 0) == Some(
        seq![TokenModel { file_id: 0, start: 0, end: print_spec(k).len(), kind: k }],
    )
}

/// A token kind with a fixed source spelling: punctuation, operators and
/// keywords (not identifiers, literals, named operators, or `NewLine`, whose
/// printable forms are not their source spellings in general).
pub open spec fn is_fixed_kind(k: KindModel) -> bool {
    match k {
        KindModel::NewLine => false,
        KindModel::Identifier(_) => false,
        KindModel::Integer(_) => false,
        KindModel::Boolean(_) => false,
        KindModel::Char(_) => false,
        KindModel::StringLit(_) => false,
        KindModel::TemplateString(_) => false,
        KindModel::HashString(_) => false,
        KindModel::Regexp(_) => false,
        KindModel::NamedOperator(_) => false,
        _ => true,
    }
}

/// A keyword kind: one of the 29 reserved spellings.
pub open spec fn is_keyword_kind(k: KindModel) -> bool {
    match k {
        KindModel::Let
        | KindModel::Match
        | KindModel::If
        | KindModel::Then
        | KindModel::Else
        | KindModel::For
        | KindModel::Next
        | KindModel::In
        | KindModel::Branch
        | KindModel::Each
        | KindModel::Mix
        | KindModel::Which
        | KindModel::Where
        | KindModel::Only
        | KindModel::Within
        | KindModel::Into
        | KindModel::Regular
        | KindModel::Template
        | KindModel::To
        | KindModel::Namespace
        | KindModel::Use
        | KindModel::Function
        | KindModel::Const
        | KindModel::Enum
        | KindModel::Struct
        | KindModel::Union
        | KindModel::Trait
        | KindModel::Impl
        | KindModel::Alias => true,
        _ => false,
    }
}

#[verifier::rlimit(60)]
proof fn lemma_round_trip_symbol(k: KindModel)
    requires
        is_fixed_kind(k),
        !is_keyword_kind(k),
    ensures
        round_trips(k),
{
    if k == KindModel::LeftBrace {
        reveal_strlit("{");
        assert("{"@ =~= seq!['{']);
        lemma_lex_single("{"@, k);
    } else if k == KindModel::RightBrace {
        reveal_strlit("}");
        assert("}"@ =~= seq!['}']);
        lemma_lex_single("}"@, k);
    } else if k == KindModel::Assign {
        reveal_strlit("=");
        assert("="@ =~= seq!['=']);
        lemma_lex_single("="@, k);
    } else if k == KindModel::Forward {
        reveal_strlit(">>");
        assert(">>"@ =~= seq!['>', '>']);
        lemma_lex_single(">>"@, k);
    } else if k == KindModel::Pipe {
        reveal_strlit("|");
        assert("|"@ =~= seq!['|']);
        lemma_lex_single("|"@, k);
    } else if k == KindModel::LogicOr {
        reveal_strlit("||");
        assert("||"@ =~= seq!['|', '|']);
        lemma_lex_single("||"@, k);
    } else if k == KindModel::LogicAnd {
        reveal_strlit("&&");
        assert("&&"@ =~= seq!['&', '&']);
        lemma_lex_single("&&"@, k);
    } else if k == KindModel::Equal {
        reveal_strlit("==");
        assert("=="@ =~= seq!['=', '=']);
        lemma_lex_single("=="@, k);
    } else if k == KindModel::NotEqual {
        reveal_strlit("!=");
        assert("!="@ =~= seq!['!', '=']);
        lemma_lex_single("!="@, k);
    } else if k == KindModel::GreaterThan {
        reveal_strlit(">");
        assert(">"@ =~= seq!['>']);
        lemma_lex_single(">"@, k);
    } else if k == KindModel::GreaterThanOrEqual {
        reveal_strlit(">=");
        assert(">="@ =~= seq!['>', '=']);
        lemma_lex_single(">="@, k);
    } else if k == KindModel::LessThan {
        reveal_strlit("<");
        assert("<"@ =~= seq!['<']);
        lemma_lex_single("<"@, k);
    } else if k == KindModel::LessThanOrEqual {
        reveal_strlit("<=");
        assert("<="@ =~= seq!['<', '=']);
        lemma_lex_single("<="@, k);
    } else if k == KindModel::Concat {
        reveal_strlit("++");
        assert("++"@ =~= seq!['+', '+']);
        lemma_lex_single("++"@, k);
    } else if k == KindModel::Plus {
        reveal_strlit("+");
        assert("+"@ =~= seq!['+']);
        lemma_lex_single("+"@, k);
    } else if k == KindModel::Minus {
        reveal_strlit("-");
        assert("-"@ =~= seq!['-']);
        lemma_lex_single("-"@, k);
    } else if k == KindModel::Asterisk {
        reveal_strlit("*");
        assert("*"@ =~= seq!['*']);
        lemma_lex_single("*"@, k);
    } else if k == KindModel::Slash {
        reveal_strlit("/");
        assert("/"@ =~= seq!['/']);
        lemma_lex_single("/"@, k);
    } else if k == KindModel::UnwrapOr {
        reveal_strlit("??");
        assert("??"@ =~= seq!['?', '?']);
        lemma_lex_single("??"@, k);
    } else if k == KindModel::Combine {
        reveal_strlit("&");
        assert("&"@ =~= seq!['&']);
        lemma_lex_single("&"@, k);
    } else if k == KindModel::Cast {
        reveal_strlit("^");
        assert("^"@ =~= seq!['^']);
        lemma_lex_single("^"@, k);
    } else if k == KindModel::Unwrap {
        reveal_strlit("?");
        assert("?"@ =~= seq!['?']);
        lemma_lex_single("?"@, k);
    } else if k == KindModel::Dot {
        reveal_strlit(".");
        assert("."@ =~= seq!['.']);
        lemma_lex_single("."@, k);
    } else if k == KindModel::LeftBracket {
        reveal_strlit("[");
        assert("["@ =~= seq!['[']);
        lemma_lex_single("["@, k);
    } else if k == KindModel::RightBracket {
        reveal_strlit("]");
        assert("]"@ =~= seq![']']);
        lemma_lex_single("]"@, k);
    } else if k == KindModel::Arrow {
        reveal_strlit("=>");
        assert("=>"@ =~= seq!['=', '>']);
        lemma_lex_single("=>"@, k);
    } else if k == KindModel::Exclamation {
        reveal_strlit("!");
        assert("!"@ =~= seq!['!']);
        lemma_lex_single("!"@, k);
    } else if k == KindModel::LeftParen {
        reveal_strlit("(");
        assert("("@ =~= seq!['(']);
        lemma_lex_single("("@, k);
    } else if k == KindModel::RightParen {
        reveal_strlit(")");
        assert(")"@ =~= seq![')']);
        lemma_lex_single(")"@, k);
    } else if k == KindModel::Hash {
        reveal_strlit("#");
        assert("#"@ =~= seq!['#']);
        lemma_lex_single("#"@, k);
    } else if k == KindModel::Range {
        reveal_strlit("..");
        assert(".."@ =~= seq!['.', '.']);
        lemma_lex_single(".."@, k);
    } else if k == KindModel::Ellipsis {
        reveal_strlit("...");
        assert("..."@ =~= seq!['.', '.', '.']);
        lemma_lex_single("..."@, k);
    } else if k == KindModel::Colon {
        reveal_strlit(":");
        assert(":"@ =~= seq![':']);
        lemma_lex_single(":"@, k);
    } else {
        reveal_strlit(",");
        assert(","@ =~= seq![',']);
        lemma_lex_single(","@, k);
    }
}

#[verifier::rlimit(60)]
proof fn lemma_round_trip_keyword(k: KindModel)
    requires
        is_keyword_kind(k),
    ensures
        round_trips(k),
{
    lemma_keyword_totality(Seq::<char>::empty());
    if k == KindModel::Let {
        reveal_strlit("let");
        assert("let"@ =~= seq!['l', 'e', 't']);
        lemma_ident_run("let"@);
    } else if k == KindModel::Match {
        reveal_strlit("match");
        assert("match"@ =~= seq!['m', 'a', 't', 'c', 'h']);
        lemma_ident_run("match"@);
    } else if k == KindModel::If {
        reveal_strlit("if");
        assert("if"@ =~= seq!['i', 'f']);
        lemma_ident_run("if"@);
    } else if k == KindModel::Then {
        reveal_strlit("then");
        assert("then"@ =~= seq!['t', 'h', 'e', 'n']);
        lemma_ident_run("then"@);
    } else if k == KindModel::Else {
        reveal_strlit("else");
        assert("else"@ =~= seq!['e', 'l', 's', 'e']);
        lemma_ident_run("else"@);
    } else if k == KindModel::For {
        reveal_strlit("for");
        assert("for"@ =~= seq!['f', 'o', 'r']);
        lemma_ident_run("for"@);
    } else if k == KindModel::Next {
        reveal_strlit("next");
        assert("next"@ =~= seq!['n', 'e', 'x', 't']);
        lemma_ident_run("next"@);
    } else if k == KindModel::In {
        reveal_strlit("in");
        assert("in"@ =~= seq!['i', 'n']);
        lemma_ident_run("in"@);
    } else if k == KindModel::Branch {
        reveal_strlit("branch");
        assert("branch"@ =~= seq!['b', 'r', 'a', 'n', 'c', 'h']);
        lemma_ident_run("branch"@);
    } else if k == KindModel::Each {
        reveal_strlit("each");
        assert("each"@ =~= seq!['e', 'a', 'c', 'h']);
        lemma_ident_run("each"@);
    } else if k == KindModel::Mix {
        reveal_strlit("mix");
        assert("mix"@ =~= seq!['m', 'i', 'x']);
        lemma_ident_run("mix"@);
    } else if k == KindModel::Which {
        reveal_strlit("which");
        assert("which"@ =~= seq!['w', 'h', 'i', 'c', 'h']);
        lemma_ident_run("which"@);
    } else if k == KindModel::Where {
        reveal_strlit("where");
        assert("where"@ =~= seq!['w', 'h', 'e', 'r', 'e']);
        lemma_ident_run("where"@);
    } else if k == KindModel::Only {
        reveal_strlit("only");
        assert("only"@ =~= seq!['o', 'n', 'l', 'y']);
        lemma_ident_run("only"@);
    } else if k == KindModel::Within {
        reveal_strlit("within");
        assert("within"@ =~= seq!['w', 'i', 't', 'h', 'i', 'n']);
        lemma_ident_run("within"@);
    } else if k == KindModel::Into {
        reveal_strlit("into");
        assert("into"@ =~= seq!['i', 'n', 't', 'o']);
        lemma_ident_run("into"@);
    } else if k == KindModel::Regular {
        reveal_strlit("regular");
        assert("regular"@ =~= seq!['r', 'e', 'g', 'u', 'l', 'a', 'r']);
        lemma_ident_run("regular"@);
    } else if k == KindModel::Template {
        reveal_strlit("template");
        assert("template"@ =~= seq!['t', 'e', 'm', 'p', 'l', 'a', 't', 'e']);
        lemma_ident_run("template"@);
    } else if k == KindModel::To {
        reveal_strlit("to");
        assert("to"@ =~= seq!['t', 'o']);
        lemma_ident_run("to"@);
    } else if k == KindModel::Namespace {
        reveal_strlit("namespace");
        assert("namespace"@ =~= seq!['n', 'a', 'm', 'e', 's', 'p', 'a', 'c', 'e']);
        lemma_ident_run("namespace"@);
    } else if k == KindModel::Use {
        reveal_strlit("use");
        assert("use"@ =~= seq!['u', 's', 'e']);
        lemma_ident_run("use"@);
    } else if k == KindModel::Function {
        reveal_strlit("function");
        assert("function"@ =~= seq!['f', 'u', 'n', 'c', 't', 'i', 'o', 'n']);
        lemma_ident_run("function"@);
    } else if k == KindModel::Const {
        reveal_strlit("const");
        assert("const"@ =~= seq!['c', 'o', 'n', 's', 't']);
        lemma_ident_run("const"@);
    } else if k == KindModel::Enum {
        reveal_strlit("enum");
        assert("enum"@ =~= seq!['e', 'n', 'u', 'm']);
        lemma_ident_run("enum"@);
    } else if k == KindModel::Struct {
        reveal_strlit("struct");
        assert("struct"@ =~= seq!['s', 't', 'r', 'u', 'c', 't']);
        lemma_ident_run("struct"@);
    } else if k == KindModel::Union {
        reveal_strlit("union");
        assert("union"@ =~= seq!['u', 'n', 'i', 'o', 'n']);
        lemma_ident_run("union"@);
    } else if k == KindModel::Trait {
        reveal_strlit("trait");
        assert("trait"@ =~= seq!['t', 'r', 'a', 'i', 't']);
        lemma_ident_run("trait"@);
    } else if k == KindModel::Impl {
        reveal_strlit("impl");
        assert("impl"@ =~= seq!['i', 'm', 'p', 'l']);
        lemma_ident_run("impl"@);
    } else {
        reveal_strlit("alias");
        assert("alias"@ =~= seq!['a', 'l', 'i', 'a', 's']);
        lemma_ident_run("alias"@);
    }
}

/// The sequence holds no line-terminator character.
pub open spec fn no_line_break(s: Seq<char>) -> bool {
    forall|k: int| 0 <= k < s.len() ==> s[k] != '\n' && s[k] != '\r'
}

/// The sequence holds no `//` comment opener.
pub open spec fn no_comment_open(s: Seq<char>) -> bool {
    forall|k: int| 0 <= k && k + 1 < s.len() ==> !(#[trigger] s[k] == '/' && s[k + 1] == '/')
}

/// The token sequence holds the given token, and no `NewLine` anywhere else.
pub open spec fn one_newline_at(ts: Seq<TokenModel>, nl: TokenModel) -> bool {
    exists|m: int|
        0 <= m < ts.len() && ts[m] == nl && (forall|j: int|
            0 <= j < ts.len() && j != m ==> !(ts[j].kind is NewLine))
}

proof fn lemma_one_newline_cons(head: TokenModel, rest: Seq<TokenModel>, nl: TokenModel)
    requires
        one_newline_at(rest, nl),
        !(head.kind is NewLine),
    ensures
        one_newline_at(seq![head] + rest, nl),
{
    let m = choose|m: int|
        0 <= m < rest.len() && rest[m] == nl && (forall|j: int|
            0 <= j < rest.len() && j != m ==> !(rest[j].kind is NewLine));
    let ts = seq![head] + rest;
    assert(ts[m + 1] == rest[m]);
    assert forall|q: int| 0 <= q < ts.len() && q != m + 1 implies !(ts[q].kind is NewLine) by {
        if q > 0 {
            assert(ts[q] == rest[q - 1]);
        }
    }
    assert(0 <= m + 1 < ts.len() && ts[m + 1] == nl && (forall|j: int|
        0 <= j < ts.len() && j != m + 1 ==> !(ts[j].kind is NewLine)));
}

/// Scanning a region free of line terminators emits no `NewLine` token.
proof fn lemma_scan_no_newline(s: Seq<char>, i: int)
    requires
        0 <= i <= s.len(),
        forall|k: int| i <= k < s.len() ==> s[k] != '\n' && s[k] != '\r',
    ensures
        match lex_from(s, i) {
            Some(ts) => forall|j: int| 0 <= j < ts.len() ==> !(ts[j].kind is NewLine),
            None => true,
        },
    decreases s.len() - i,
{
    if i >= s.len() {
    } else if is_blank(s[i]) {
        lemma_scan_no_newline(s, i + 1);
    } else if s[i] == '/' && i + 1 < s.len() && s[i + 1] == '/' {
        lemma_line_comment_end_bounds(s, i + 2);
        lemma_scan_no_newline(s, line_comment_end(s, i + 2));
    } else {
        lemma_token_at_bounds(s, i);
        match token_at(s, i) {
            Some((k, j)) => {
                lemma_scan_no_newline(s, j);
                assert(!(k is NewLine));
                match lex_from(s, j) {
                    Some(rest) => {
                        let tm = TokenModel { file_id: 0, start: i as nat, end: j as nat, kind: k };
                        let ts = seq![tm] + rest;
                        assert(lex_from(s, i) == Some(ts));
                        assert forall|q: int| 0 <= q < ts.len() implies !(ts[q].kind is NewLine) by {
                            if q > 0 {
                                assert(ts[q] == rest[q - 1]);
                            }
                        }
                    },
                    None => {},
                }
            },
            None => {},
        }
    }
}

/// Newline normalization: in an input `x + t + y` where `t` is one of the
/// three line-terminator forms and `x`, `y` hold no line terminator (and `x`
/// opens no comment that would swallow `t`), a successful scan yields exactly
/// one `NewLine`, and it spans exactly `t`.
pub proof fn lemma_newline_normalization(x: Seq<char>, t: Seq<char>, y: Seq<char>)
    requires
        no_line_break(x),
        no_line_break(y),
        no_comment_open(x),
        t == "\n"@ || t == "\r\n"@ || t == "\r"@,
    ensures
        match lex_from(x + t + y, 0) {
            Some(ts) => one_newline_at(
                ts,
                TokenModel {
                    file_id: 0,
                    start: x.len(),
                    end: (x.len() + t.len()) as nat,
                    kind: KindModel::NewLine,
                },
            ),
            None => true,
        },
{
    reveal_strlit("\n");
    reveal_strlit("\r\n");
    reveal_strlit("\r");
    assert("\n"@ =~= seq!['\n']);
    assert("\r\n"@ =~= seq!['\r', '\n']);
    assert("\r"@ =~= seq!['\r']);
    lemma_newline_scan(x, t, y, 0);
}

proof fn lemma_newline_scan(x: Seq<char>, t: Seq<char>, y: Seq<char>, i: int)
    requires
        no_line_break(x),
        no_line_break(y),
        no_comment_open(x),
        t == seq!['\n'] || t == seq!['\r', '\n'] || t == seq!['\r'],
        0 <= i <= x.len(),
    ensures
        match lex_from(x + t + y, i) {
            Some(ts) => one_newline_at(
                ts,
                TokenModel {
                    file_id: 0,
                    start: x.len(),
                    end: (x.len() + t.len()) as nat,
                    kind: KindModel::NewLine,
                },
            ),
            None => true,
        },
    decreases x.len() - i,
{
    let s = x + t + y;
    let nl = TokenModel {
        file_id: 0,
        start: x.len(),
        end: (x.len() + t.len()) as nat,
        kind: KindModel::NewLine,
    };
    if i == x.len() {
        let j = i + t.len() as int;
        assert(s[i] == t[0]);
        if t.len() == 2 {
            assert(s[i + 1] == t[1]);
        }
        if t == seq!['\r'] && i + 1 < s.len() {
            assert(s[i + 1] == y[0]);
            assert(s[i + 1] != '\n');
        }
        assert(token_at(s, i) == Some((KindModel::NewLine, j)));
        assert forall|k: int| j <= k < s.len() implies s[k] != '\n' && s[k] != '\r' by {
            assert(s[k] == y[k - j]);
        }
        lemma_scan_no_newline(s, j);
        match lex_from(s, j) {
            Some(rest) => {
                let ts = seq![nl] + rest;
                assert(lex_from(s, i) == Some(ts));
                assert(ts[0] == nl);
                assert forall|q: int| 0 <= q < ts.len() && q != 0 implies !(ts[q].kind
                    is NewLine) by {
                    assert(ts[q] == rest[q - 1]);
                }
                assert(one_newline_at(ts, nl));
            },
            None => {},
        }
    } else {
        assert(s[i] == x[i]);
        assert(s[i] != '\n' && s[i] != '\r');
        if is_blank(s[i]) {
            lemma_newline_scan(x, t, y, i + 1);
        } else {
            // No comment opens here: a `//` inside x is excluded, and at the
            // boundary the next character is t's line terminator, not `/`.
            if s[i] == '/' && i + 1 < s.len() && s[i + 1] == '/' {
                if i + 1 < x.len() {
                    assert(s[i + 1] == x[i + 1]);
                    assert(false);
                } else {
                    assert(s[i + 1] == t[0]);
                    assert(false);
                }
            }
            if i + 1 == x.len() {
                assert(s[i + 1] == t[0]);
            } else if i + 1 < x.len() {
                assert(s[i + 1] == x[i + 1]);
            }
            if i + 2 == x.len() && i + 2 < s.len() {
                assert(s[i + 2] == t[0]);
            } else if i + 2 < x.len() {
                assert(s[i + 2] == x[i + 2]);
            }
            match token_at(s, i) {
                Some((k, j)) => {
                    assert(!(k is NewLine));
                    if is_ident_start(s[i]) {
                        assert(!is_ident_part(t[0]));
                        lemma_ident_end_le(s, i, x.len() as int);
                        lemma_ident_end_bounds(s, i);
                    } else {
                        lemma_token_at_bounds(s, i);
                    }
                    assert(i < j <= x.len());
                    lemma_newline_scan(x, t, y, j);
                    match lex_from(s, j) {
                        Some(rest) => {
                            let tm = TokenModel {
                                file_id: 0,
                                start: i as nat,
                                end: j as nat,
                                kind: k,
                            };
                            assert(lex_from(s, i) == Some(seq![tm] + rest));
                            lemma_one_newline_cons(tm, rest, nl);
                        },
                        None => {},
                    }
                },
                None => {},
            }
        }
    }
}

/// The kinds of a token sequence, in order.
pub open spec fn kinds_of(ts: Seq<TokenModel>) -> Seq<KindModel> {
    ts.map_values(|t: TokenModel| t.kind)
}

/// Two scan results agree up to token locations: both fail, or both succeed
/// with the same kinds in the same order.
pub open spec fn lex_same_kinds(r1: Option<Seq<TokenModel>>, r2: Option<Seq<TokenModel>>) -> bool {
    match (r1, r2) {
        (Some(a), Some(b)) => kinds_of(a) == kinds_of(b),
        (None, None) => true,
        _ => false,
    }
}

proof fn lemma_kinds_cons(k: KindModel, tm1: TokenModel, tm2: TokenModel, r1: Seq<TokenModel>, r2: Seq<TokenModel>)
    requires
        kinds_of(r1) == kinds_of(r2),
        tm1.kind == k,
        tm2.kind == k,
    ensures
        kinds_of(seq![tm1] + r1) == kinds_of(seq![tm2] + r2),
{
    assert(kinds_of(seq![tm1] + r1) =~= seq![k] + kinds_of(r1));
    assert(kinds_of(seq![tm2] + r2) =~= seq![k] + kinds_of(r2));
}

/// Equal suffixes stay equal when both sides advance by the same amount.
proof fn lemma_suffix_shift(s1: Seq<char>, i1: int, s2: Seq<char>, i2: int, o: int)
    requires
        0 <= i1 <= s1.len(),
        0 <= i2 <= s2.len(),
        s1.subrange(i1, s1.len() as int) == s2.subrange(i2, s2.len() as int),
        0 <= o <= s1.len() - i1,
    ensures
        s1.len() - i1 == s2.len() - i2,
        s1.subrange(i1 + o, s1.len() as int) == s2.subrange(i2 + o, s2.len() as int),
        forall|q: int| 0 <= q < s1.len() - i1 ==> #[trigger] s1[i1 + q] == s2[i2 + q],
{
    let sub1 = s1.subrange(i1, s1.len() as int);
    let sub2 = s2.subrange(i2, s2.len() as int);
    assert(sub1.len() == s1.len() - i1);
    assert(sub2.len() == s2.len() - i2);
    assert(sub1.len() == sub2.len());
    assert forall|q: int| 0 <= q < s1.len() - i1 implies #[trigger] s1[i1 + q] == s2[i2 + q] by {
        assert(0 <= q < sub1.len());
        assert(sub1[q] == s1[i1 + q]);
        assert(sub2[q] == s2[i2 + q]);
        assert(sub1[q] == sub2[q]);
    }
    let tail1 = s1.subrange(i1 + o, s1.len() as int);
    let tail2 = s2.subrange(i2 + o, s2.len() as int);
    assert(tail1 =~= sub1.subrange(o, sub1.len() as int));
    assert(tail2 =~= sub2.subrange(o, sub2.len() as int));
    assert(tail1 == tail2);
}

/// Identifier runs end at the same offset in two inputs whose characters
/// agree up to a bound past which neither continues the run.
proof fn lemma_ident_end_agree(s1: Seq<char>, s2: Seq<char>, i: int, b: int)
    requires
        0 <= i <= b,
        b <= s1.len(),
        b <= s2.len(),
        forall|k: int| i <= k < b ==> s1[k] == s2[k],
        b < s1.len() ==> !is_ident_part(s1[b]),
        b < s2.len() ==> !is_ident_part(s2[b]),
    ensures
        ident_end(s1, i) == ident_end(s2, i),
        i <= ident_end(s1, i) <= b,
    decreases b - i,
{
    if i < b && is_ident_part(s1[i]) {
        lemma_ident_end_agree(s1, s2, i + 1, b);
    }
}

/// Comment scanning ends exactly at a `'\n'` that everything before misses.
proof fn lemma_line_comment_end_found(s: Seq<char>, i: int, p: int)
    requires
        0 <= i <= p < s.len(),
        forall|k: int| i <= k < p ==> s[k] != '\n',
        s[p] == '\n',
    ensures
        line_comment_end(s, i) == p,
    decreases p - i,
{
    if i < p {
        lemma_line_comment_end_found(s, i + 1, p);
    }
}

/// The token found at corresponding positions of two inputs with equal
/// suffixes has the same kind and length on both sides.
proof fn lemma_token_at_shift(s1: Seq<char>, i1: int, s2: Seq<char>, i2: int)
    requires
        0 <= i1 < s1.len(),
        0 <= i2 < s2.len(),
        s1.subrange(i1, s1.len() as int) == s2.subrange(i2, s2.len() as int),
    ensures
        match (token_at(s1, i1), token_at(s2, i2)) {
            (Some((k1, j1)), Some((k2, j2))) => k1 == k2 && j1 - i1 == j2 - i2,
            (None, None) => true,
            _ => false,
        },
{
    lemma_suffix_shift(s1, i1, s2, i2, 0);
    assert(s1[i1] == s2[i2]);
    if i1 + 1 < s1.len() {
        assert(s1[i1 + 1] == s2[i2 + 1]);
    }
    if i1 + 2 < s1.len() {
        assert(s1[i1 + 2] == s2[i2 + 2]);
    }
    if is_ident_start(s1[i1]) {
        lemma_ident_end_bounds(s1, i1);
        lemma_ident_end_bounds(s2, i2);
        lemma_ident_end_shift(s1, i1, s2, i2);
        let e1 = ident_end(s1, i1);
        let e2 = ident_end(s2, i2);
        assert(s1.subrange(i1, e1) =~= s2.subrange(i2, e2));
    }
}

/// Identifier runs have the same length at corresponding positions of two
/// inputs with equal suffixes.
proof fn lemma_ident_end_shift(s1: Seq<char>, i1: int, s2: Seq<char>, i2: int)
    requires
        0 <= i1 <= s1.len(),
        0 <= i2 <= s2.len(),
        s1.subrange(i1, s1.len() as int) == s2.subrange(i2, s2.len() as int),
    ensures
        ident_end(s1, i1) - i1 == ident_end(s2, i2) - i2,
    decreases s1.len() - i1,
{
    lemma_suffix_shift(s1, i1, s2, i2, 0);
    if i1 < s1.len() && is_ident_part(s1[i1]) {
        assert(s1[i1] == s2[i2]);
        lemma_suffix_shift(s1, i1, s2, i2, 1);
        lemma_ident_end_shift(s1, i1 + 1, s2, i2 + 1);
    } else if i1 < s1.len() {
        assert(s1[i1] == s2[i2]);
    }
}

/// Comment scanning advances by the same amount at corresponding positions
/// of two inputs with equal suffixes.
proof fn lemma_line_comment_end_shift(s1: Seq<char>, i1: int, s2: Seq<char>, i2: int)
    requires
        0 <= i1 <= s1.len(),
        0 <= i2 <= s2.len(),
        s1.subrange(i1, s1.len() as int) == s2.subrange(i2, s2.len() as int),
    ensures
        line_comment_end(s1, i1) - i1 == line_comment_end(s2, i2) - i2,
    decreases s1.len() - i1,
{
    lemma_suffix_shift(s1, i1, s2, i2, 0);
    if i1 < s1.len() && s1[i1] != '\n' {
        assert(s1[i1] == s2[i2]);
        lemma_suffix_shift(s1, i1, s2, i2, 1);
        lemma_line_comment_end_shift(s1, i1 + 1, s2, i2 + 1);
    } else if i1 < s1.len() {
        assert(s1[i1] == s2[i2]);
    }
}

/// Scans from corresponding positions of two inputs with equal suffixes
/// agree: both fail, or both yield the same kinds in the same order.
proof fn lemma_lex_shift(s1: Seq<char>, i1: int, s2: Seq<char>, i2: int)
    requires
        0 <= i1 <= s1.len(),
        0 <= i2 <= s2.len(),
        s1.subrange(i1, s1.len() as int) == s2.subrange(i2, s2.len() as int),
    ensures
        lex_same_kinds(lex_from(s1, i1), lex_from(s2, i2)),
    decreases s1.len() - i1,
{
    lemma_suffix_shift(s1, i1, s2, i2, 0);
    if i1 >= s1.len() {
        assert(kinds_of(Seq::<TokenModel>::empty()) =~= Seq::<KindModel>::empty());
    } else {
        assert(s1[i1] == s2[i2]);
        if i1 + 1 < s1.len() {
            assert(s1[i1 + 1] == s2[i2 + 1]);
        }
        if is_blank(s1[i1]) {
            lemma_suffix_shift(s1, i1, s2, i2, 1);
            lemma_lex_shift(s1, i1 + 1, s2, i2 + 1);
        } else if s1[i1] == '/' && i1 + 1 < s1.len() && s1[i1 + 1] == '/' {
            lemma_suffix_shift(s1, i1, s2, i2, 2);
            lemma_line_comment_end_shift(s1, i1 + 2, s2, i2 + 2);
            lemma_line_comment_end_bounds(s1, i1 + 2);
            lemma_line_comment_end_bounds(s2, i2 + 2);
            let resume = line_comment_end(s1, i1 + 2);
            lemma_suffix_shift(s1, i1, s2, i2, resume - i1);
            lemma_lex_shift(s1, resume, s2, line_comment_end(s2, i2 + 2));
        } else {
            lemma_token_at_shift(s1, i1, s2, i2);
            lemma_token_at_bounds(s1, i1);
            lemma_token_at_bounds(s2, i2);
            match (token_at(s1, i1), token_at(s2, i2)) {
                (Some((k1, j1)), Some((k2, j2))) => {
                    lemma_suffix_shift(s1, i1, s2, i2, j1 - i1);
                    lemma_lex_shift(s1, j1, s2, j2);
                    match (lex_from(s1, j1), lex_from(s2, j2)) {
                        (Some(r1), Some(r2)) => {
                            let tm1 = TokenModel {
                                file_id: 0,
                                start: i1 as nat,
                                end: j1 as nat,
                                kind: k1,
                            };
                            let tm2 = TokenModel {
                                file_id: 0,
                                start: i2 as nat,
                                end: j2 as nat,
                                kind: k2,
                            };
                            assert(lex_from(s1, i1) == Some(seq![tm1] + r1));
                            assert(lex_from(s2, i2) == Some(seq![tm2] + r2));
                            lemma_kinds_cons(k1, tm1, tm2, r1, r2);
                        },
                        _ => {},
                    }
                },
                _ => {},
            }
        }
    }
}

/// Comment elision: a line comment inserted immediately before a line
/// terminator leaves the scanned kinds unchanged: `x ++ "//" ++ c ++ "\n" ++ y`
/// scans to the same kinds as `x ++ "\n" ++ y`, when `c` holds no `'\n'`.
/// A final `'/'` in `x` would merge with the inserted `//` (losing a `Slash`),
/// and a final `'\r'` would merge with the bare `"\n"` form; those two
/// endings are excluded.
pub proof fn lemma_comment_elision(x: Seq<char>, c: Seq<char>, y: Seq<char>)
    requires
        forall|k: int| 0 <= k < c.len() ==> c[k] != '\n',
        x.len() > 0 ==> x[x.len() - 1] != '/' && x[x.len() - 1] != '\r',
    ensures
        lex_same_kinds(lex_from(x + "//"@ + c + "\n"@ + y, 0), lex_from(x + "\n"@ + y, 0)),
{
    reveal_strlit("//");
    reveal_strlit("\n");
    assert("//"@ =~= seq!['/', '/']);
    assert("\n"@ =~= seq!['\n']);
    assert(x + "//"@ + c + "\n"@ + y == x + seq!['/', '/'] + c + seq!['\n'] + y);
    assert(x + "\n"@ + y == x + seq!['\n'] + y);
    lemma_elision_scan(x, c, y, 0);
}

proof fn lemma_elision_scan(x: Seq<char>, c: Seq<char>, y: Seq<char>, i: int)
    requires
        forall|k: int| 0 <= k < c.len() ==> c[k] != '\n',
        x.len() > 0 ==> x[x.len() - 1] != '/' && x[x.len() - 1] != '\r',
        0 <= i <= x.len(),
    ensures
        lex_same_kinds(
            lex_from(x + seq!['/', '/'] + c + seq!['\n'] + y, i),
            lex_from(x + seq!['\n'] + y, i),
        ),
    decreases x.len() - i,
{
    let s1 = x + seq!['/', '/'] + c + seq!['\n'] + y;
    let s2 = x + seq!['\n'] + y;
    let xl = x.len() as int;
    let nl_at = xl + 2 + c.len() as int;
    assert(s1.len() == x.len() + 2 + c.len() + 1 + y.len());
    assert(s2.len() == x.len() + 1 + y.len());
    assert(s1[xl] == '/');
    assert(s1[xl + 1] == '/');
    assert(s1[nl_at] == '\n');
    assert(s2[xl] == '\n');
    // The suffixes from the comment's terminating newline in the one input
    // and from the inserted newline in the other are the same string.
    let t1 = s1.subrange(nl_at, s1.len() as int);
    let t2 = s2.subrange(xl, s2.len() as int);
    assert forall|q: int| 0 <= q < t1.len() implies t1[q] == t2[q] by {
        assert(t1[q] == s1[nl_at + q]);
        assert(t2[q] == s2[xl + q]);
        if q > 0 {
            assert(s1[nl_at + q] == y[q - 1]);
            assert(s2[xl + q] == y[q - 1]);
        }
    }
    assert(t1 =~= t2);
    if i == x.len() {
        assert forall|k: int| i + 2 <= k < nl_at implies s1[k] != '\n' by {
            assert(s1[k] == c[k - (xl + 2)]);
        }
        lemma_line_comment_end_found(s1, i + 2, nl_at);
        assert(lex_from(s1, i) == lex_from(s1, nl_at));
        lemma_lex_shift(s1, nl_at, s2, i);
    } else {
        assert(s1[i] == x[i]);
        assert(s2[i] == x[i]);
        if i + 1 < x.len() {
            assert(s1[i + 1] == x[i + 1]);
            assert(s2[i + 1] == x[i + 1]);
        } else {
            assert(s1[i + 1] == '/');
            assert(s2[i + 1] == '\n');
        }
        if i + 2 < x.len() {
            assert(s1[i + 2] == x[i + 2]);
            assert(s2[i + 2] == x[i + 2]);
        } else if i + 2 == x.len() {
            assert(s1[i + 2] == '/');
            assert(s2[i + 2] == '\n');
        }
        if is_blank(s1[i]) {
            lemma_elision_scan(x, c, y, i + 1);
        } else if s1[i] == '/' && s1[i + 1] == '/' {
            // A comment inside x: x cannot end in '/', so the pair lies in x,
            // and the same comment opens in both inputs.
            assert(i + 1 < x.len());
            let qx = line_comment_end(x, i + 2);
            lemma_line_comment_end_bounds(x, i + 2);
            if qx < x.len() {
                // The comment ends inside x, at the same place in both.
                assert forall|k: int| i + 2 <= k < qx implies s1[k] != '\n' && s2[k] != '\n' by {
                    assert(s1[k] == x[k]);
                    assert(s2[k] == x[k]);
                }
                assert(s1[qx] == x[qx]);
                assert(s2[qx] == x[qx]);
                lemma_line_comment_end_found(s1, i + 2, qx);
                lemma_line_comment_end_found(s2, i + 2, qx);
                lemma_elision_scan(x, c, y, qx);
            } else {
                // The comment runs to the appended newline on both sides.
                assert forall|k: int| i + 2 <= k < nl_at implies s1[k] != '\n' by {
                    if k < x.len() {
                        assert(s1[k] == x[k]);
                    } else if k >= x.len() + 2 {
                        assert(s1[k] == c[k - (xl + 2)]);
                    }
                }
                assert forall|k: int| i + 2 <= k < x.len() implies s2[k] != '\n' by {
                    assert(s2[k] == x[k]);
                }
                lemma_line_comment_end_found(s1, i + 2, nl_at);
                lemma_line_comment_end_found(s2, i + 2, xl);
                assert(lex_from(s1, i) == lex_from(s1, nl_at));
                assert(lex_from(s2, i) == lex_from(s2, xl));
                lemma_lex_shift(s1, nl_at, s2, xl);
            }
        } else {
            // A token begins here. Since x ends in neither '/' nor '\r', the
            // two-character lookahead never completes a longer form out of
            // the appended text, so both inputs find the same token, ending
            // at or before x's end.
            if s1[i] == '\r' && i + 1 == x.len() {
                assert(false);
            }
            if is_ident_start(s1[i]) {
                assert(!is_ident_part(s1[xl]));
                assert(!is_ident_part(s2[xl]));
                assert forall|k: int| i <= k < x.len() implies s1[k] == s2[k] by {
                    assert(s1[k] == x[k]);
                    assert(s2[k] == x[k]);
                }
                lemma_ident_end_agree(s1, s2, i, xl);
                let e = ident_end(s1, i);
                lemma_ident_end_bounds(s1, i);
                assert forall|q: int| 0 <= q < e - i implies s1.subrange(i, e)[q] == s2.subrange(
                    i,
                    e,
                )[q] by {
                    assert(s1.subrange(i, e)[q] == s1[i + q]);
                    assert(s2.subrange(i, e)[q] == s2[i + q]);
                    assert(s1[i + q] == x[i + q]);
                    assert(s2[i + q] == x[i + q]);
                }
                assert(s1.subrange(i, e) =~= s2.subrange(i, e));
            }
            match token_at(s1, i) {
                Some((k, j)) => {
                    assert(token_at(s2, i) == Some((k, j)));
                    lemma_token_at_bounds(s1, i);
                    assert(i < j <= x.len());
                    lemma_elision_scan(x, c, y, j);
                    match (lex_from(s1, j), lex_from(s2, j)) {
                        (Some(r1), Some(r2)) => {
                            let tm = TokenModel {
                                file_id: 0,
                                start: i as nat,
                                end: j as nat,
                                kind: k,
                            };
                            assert(lex_from(s1, i) == Some(seq![tm] + r1));
                            assert(lex_from(s2, i) == Some(seq![tm] + r2));
                            lemma_kinds_cons(k, tm, tm, r1, r2);
                        },
                        _ => {},
                    }
                },
                None => {
                    assert(token_at(s2, i) is None);
                },
            }
        }
    }
}

/// Printable-form round trip: for every punctuation, operator and keyword
/// kind, scanning its printable form yields a one-element token sequence
/// whose kind equals it.
pub proof fn lemma_print_round_trip(k: KindModel)
    requires
        is_fixed_kind(k),
    ensures
        round_trips(k),
{
    if is_keyword_kind(k) {
        lemma_round_trip_keyword(k);
    } else {
        lemma_round_trip_symbol(k);
    }
}

} // verus!
