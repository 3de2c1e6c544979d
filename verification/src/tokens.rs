//! The closed set of lexical categories (punctuation, operators, keywords,
//! literals), their source spellings, the operator-precedence tables, and the
//! `Token` record stamped with a source span.

use vstd::prelude::*;
use vstd::string::*;

use crate::location::Location;

verus! {

/// A lexical category. `Identifier` and `Number` carry the source text of
/// the token; `Boolean` carries the literal's value.
#[derive(Debug, Clone)]
pub enum Type {
    Identifier(String),
    Whitespace,
    NewLine,
    Semicolon,
    Module,
    Number(String),
    Boolean(bool),
    Assignment,
    LeftParen,
    RightParen,
    LeftBrace,
    RightBrace,
    LeftBracket,
    RightBracket,
    Addition,
    Subtraction,
    Multiplication,
    Division,
    Exponentiation,
    Modulo,
    And,
    Or,
    Nand,
    Nor,
    Xand,
    Xor,
    Not,
    Equal,
    NotEqual,
    GreaterThan,
    LessThan,
    GreaterThanOrEqual,
    LessThanOrEqual,
    LeftShift,
    RightShift,
    ZeroFillRightShift,
    CountLeadingZeros,
    CountTrailingZeros,
    Let,
    Colon,
    If,
    For,
    While,
    Do,
    Break,
    Continue,
    Return,
    Comma,
    Function,
    Class,
    Public,
    Private,
    Inner,
    Operator,
    EOF,
}

impl Type {
    /// A numeric tag distinguishing the variants; two kinds are "the same"
    /// when their tags agree, whatever payload an identifier or literal
    /// carries.
    pub open spec fn spec_tag(&self) -> u32 {
        match self {
            Type::Identifier(_) => 0,
            Type::Whitespace => 1,
            Type::NewLine => 2,
            Type::Semicolon => 3,
            Type::Module => 4,
            Type::Number(_) => 5,
            Type::Boolean(_) => 6,
            Type::Assignment => 7,
            Type::LeftParen => 8,
            Type::RightParen => 9,
            Type::LeftBrace => 10,
            Type::RightBrace => 11,
            Type::LeftBracket => 12,
            Type::RightBracket => 13,
            Type::Addition => 14,
            Type::Subtraction => 15,
            Type::Multiplication => 16,
            Type::Division => 17,
            Type::Exponentiation => 18,
            Type::Modulo => 19,
            Type::And => 20,
            Type::Or => 21,
            Type::Nand => 22,
            Type::Nor => 23,
            Type::Xand => 24,
            Type::Xor => 25,
            Type::Not => 26,
            Type::Equal => 27,
            Type::NotEqual => 28,
            Type::GreaterThan => 29,
            Type::LessThan => 30,
            Type::GreaterThanOrEqual => 31,
            Type::LessThanOrEqual => 32,
            Type::LeftShift => 33,
            Type::RightShift => 34,
            Type::ZeroFillRightShift => 35,
            Type::CountLeadingZeros => 36,
            Type::CountTrailingZeros => 37,
            Type::Let => 38,
            Type::Colon => 39,
            Type::If => 40,
            Type::For => 41,
            Type::While => 42,
            Type::Do => 43,
            Type::Break => 44,
            Type::Continue => 45,
            Type::Return => 46,
            Type::Comma => 47,
            Type::Function => 48,
            Type::Class => 49,
            Type::Public => 50,
            Type::Private => 51,
            Type::Inner => 52,
            Type::Operator => 53,
            Type::EOF => 54,
        }
    }

    pub fn tag(&self) -> (t: u32)
        ensures
            t == self.spec_tag(),
    {
        match self {
            Type::Identifier(_) => 0,
            Type::Whitespace => 1,
            Type::NewLine => 2,
            Type::Semicolon => 3,
            Type::Module => 4,
            Type::Number(_) => 5,
            Type::Boolean(_) => 6,
            Type::Assignment => 7,
            Type::LeftParen => 8,
            Type::RightParen => 9,
            Type::LeftBrace => 10,
            Type::RightBrace => 11,
            Type::LeftBracket => 12,
            Type::RightBracket => 13,
            Type::Addition => 14,
            Type::Subtraction => 15,
            Type::Multiplication => 16,
            Type::Division => 17,
            Type::Exponentiation => 18,
            Type::Modulo => 19,
            Type::And => 20,
            Type::Or => 21,
            Type::Nand => 22,
            Type::Nor => 23,
            Type::Xand => 24,
            Type::Xor => 25,
            Type::Not => 26,
            Type::Equal => 27,
            Type::NotEqual => 28,
            Type::GreaterThan => 29,
            Type::LessThan => 30,
            Type::GreaterThanOrEqual => 31,
            Type::LessThanOrEqual => 32,
            Type::LeftShift => 33,
            Type::RightShift => 34,
            Type::ZeroFillRightShift => 35,
            Type::CountLeadingZeros => 36,
            Type::CountTrailingZeros => 37,
            Type::Let => 38,
            Type::Colon => 39,
            Type::If => 40,
            Type::For => 41,
            Type::While => 42,
            Type::Do => 43,
            Type::Break => 44,
            Type::Continue => 45,
            Type::Return => 46,
            Type::Comma => 47,
            Type::Function => 48,
            Type::Class => 49,
            Type::Public => 50,
            Type::Private => 51,
            Type::Inner => 52,
            Type::Operator => 53,
            Type::EOF => 54,
        }
    }

    /// Two kinds are the same category when their variants agree; payloads
    /// of identifiers, numbers and booleans are not compared.
    pub open spec fn same_kind(&self, other: &Type) -> bool {
        self.spec_tag() == other.spec_tag()
    }

    /// Category equality: variant against variant, ignoring payloads.
    pub fn eq(&self, typ: &Type) -> (r: bool)
        ensures
            r == self.same_kind(typ),
    {
        self.tag() == typ.tag()
    }

    /// Is this kind's category one of those in `types`?
    pub open spec fn spec_is(&self, types: Seq<Type>) -> bool {
        exists|i: int| 0 <= i < types.len() && self.same_kind(&types[i])
    }

    pub fn is(&self, types: &Vec<Type>) -> (r: bool)
        ensures
            r == self.spec_is(types@),
    {
        let mut j: usize = 0;
        while j < types.len()
            invariant
                j <= types@.len(),
                forall|i: int| 0 <= i < j ==> !self.same_kind(&types@[i]),
            decreases types@.len() - j,
        {
            if self.eq(&types[j]) {
                return true;
            }
            j = j + 1;
        }
        false
    }

    /// Does this kind end a statement? Newlines, semicolons and the end of
    /// the stream all do.
    pub open spec fn spec_is_line_ending(&self) -> bool {
        self.same_kind(&Type::NewLine) || self.same_kind(&Type::Semicolon) || self.same_kind(
            &Type::EOF,
        )
    }

    pub fn is_line_ending(self) -> (r: bool)
        ensures
            r == self.spec_is_line_ending(),
    {
        let t = self.tag();
        t == 2 || t == 3 || t == 54
    }

    /// The variant's name.
    pub open spec fn spec_type_name(&self) -> Seq<char> {
        match self {
            Type::Identifier(_) => "Identifier"@,
            Type::Whitespace => "Whitespace"@,
            Type::NewLine => "NewLine"@,
            Type::Semicolon => "Semicolon"@,
            Type::Module => "Module"@,
            Type::Number(_) => "Number"@,
            Type::Boolean(_) => "Boolean"@,
            Type::Assignment => "Assignment"@,
            Type::LeftParen => "LeftParen"@,
            Type::RightParen => "RightParen"@,
            Type::LeftBrace => "LeftBrace"@,
            Type::RightBrace => "RightBrace"@,
            Type::LeftBracket => "LeftBracket"@,
            Type::RightBracket => "RightBracket"@,
            Type::Addition => "Addition"@,
            Type::Subtraction => "Subtraction"@,
            Type::Multiplication => "Multiplication"@,
            Type::Division => "Division"@,
            Type::Exponentiation => "Exponentiation"@,
            Type::Modulo => "Modulo"@,
            Type::And => "And"@,
            Type::Or => "Or"@,
            Type::Nand => "Nand"@,
            Type::Nor => "Nor"@,
            Type::Xand => "Xand"@,
            Type::Xor => "Xor"@,
            Type::Not => "Not"@,
            Type::Equal => "Equal"@,
            Type::NotEqual => "NotEqual"@,
            Type::GreaterThan => "GreaterThan"@,
            Type::LessThan => "LessThan"@,
            Type::GreaterThanOrEqual => "GreaterThanOrEqual"@,
            Type::LessThanOrEqual => "LessThanOrEqual"@,
            Type::LeftShift => "LeftShift"@,
            Type::RightShift => "RightShift"@,
            Type::ZeroFillRightShift => "ZeroFillRightShift"@,
            Type::CountLeadingZeros => "CountLeadingZeros"@,
            Type::CountTrailingZeros => "CountTrailingZeros"@,
            Type::Let => "Let"@,
            Type::Colon => "Colon"@,
            Type::If => "If"@,
            Type::For => "For"@,
            Type::While => "While"@,
            Type::Do => "Do"@,
            Type::Break => "Break"@,
            Type::Continue => "Continue"@,
            Type::Return => "Return"@,
            Type::Comma => "Comma"@,
            Type::Function => "Function"@,
            Type::Class => "Class"@,
            Type::Public => "Public"@,
            Type::Private => "Private"@,
            Type::Inner => "Inner"@,
            Type::Operator => "Operator"@,
            Type::EOF => "EOF"@,
        }
    }

    /// The variant's name, for diagnostics.
    pub fn name(&self) -> (n: &'static str)
        ensures
            n@ == self.spec_type_name(),
    {
        match self {
            Type::Identifier(_) => "Identifier",
            Type::Whitespace => "Whitespace",
            Type::NewLine => "NewLine",
            Type::Semicolon => "Semicolon",
            Type::Module => "Module",
            Type::Number(_) => "Number",
            Type::Boolean(_) => "Boolean",
            Type::Assignment => "Assignment",
            Type::LeftParen => "LeftParen",
            Type::RightParen => "RightParen",
            Type::LeftBrace => "LeftBrace",
            Type::RightBrace => "RightBrace",
            Type::LeftBracket => "LeftBracket",
            Type::RightBracket => "RightBracket",
            Type::Addition => "Addition",
            Type::Subtraction => "Subtraction",
            Type::Multiplication => "Multiplication",
            Type::Division => "Division",
            Type::Exponentiation => "Exponentiation",
            Type::Modulo => "Modulo",
            Type::And => "And",
            Type::Or => "Or",
            Type::Nand => "Nand",
            Type::Nor => "Nor",
            Type::Xand => "Xand",
            Type::Xor => "Xor",
            Type::Not => "Not",
            Type::Equal => "Equal",
            Type::NotEqual => "NotEqual",
            Type::GreaterThan => "GreaterThan",
            Type::LessThan => "LessThan",
            Type::GreaterThanOrEqual => "GreaterThanOrEqual",
            Type::LessThanOrEqual => "LessThanOrEqual",
            Type::LeftShift => "LeftShift",
            Type::RightShift => "RightShift",
            Type::ZeroFillRightShift => "ZeroFillRightShift",
            Type::CountLeadingZeros => "CountLeadingZeros",
            Type::CountTrailingZeros => "CountTrailingZeros",
            Type::Let => "Let",
            Type::Colon => "Colon",
            Type::If => "If",
            Type::For => "For",
            Type::While => "While",
            Type::Do => "Do",
            Type::Break => "Break",
            Type::Continue => "Continue",
            Type::Return => "Return",
            Type::Comma => "Comma",
            Type::Function => "Function",
            Type::Class => "Class",
            Type::Public => "Public",
            Type::Private => "Private",
            Type::Inner => "Inner",
            Type::Operator => "Operator",
            Type::EOF => "EOF",
        }
    }

    /// The source spelling of a fixed symbol or keyword. Kinds that carry
    /// their own text (identifiers, numbers) and the end-of-stream marker
    /// have no fixed spelling; whitespace has two (see `spec_src_strings`).
    pub open spec fn spec_spelling(&self) -> Seq<char> {
        match self {
            Type::NewLine => "\n"@,
            Type::Semicolon => ";"@,
            Type::Module => "mod"@,
            Type::Boolean(b) => if *b {
                "true"@
            } else {
                "false"@
            },
            Type::Assignment => "="@,
            Type::LeftParen => "("@,
            Type::RightParen => ")"@,
            Type::LeftBrace => "{"@,
            Type::RightBrace => "}"@,
            Type::LeftBracket => "["@,
            Type::RightBracket => "]"@,
            Type::Addition => "+"@,
            Type::Subtraction => "-"@,
            Type::Multiplication => "*"@,
            Type::Division => "/"@,
            Type::Exponentiation => "^"@,
            Type::Modulo => "%"@,
            Type::And => "&"@,
            Type::Or => "|"@,
            Type::Nand => "!&"@,
            Type::Nor => "!|"@,
            Type::Xand => "^&"@,
            Type::Xor => "^|"@,
            Type::Not => "!"@,
            Type::Equal => "=="@,
            Type::NotEqual => "!="@,
            Type::GreaterThan => ">"@,
            Type::LessThan => "<"@,
            Type::GreaterThanOrEqual => ">="@,
            Type::LessThanOrEqual => "<="@,
            Type::LeftShift => "<<"@,
            Type::RightShift => ">>"@,
            Type::ZeroFillRightShift => ">>>"@,
            Type::CountLeadingZeros => "<.."@,
            Type::CountTrailingZeros => ">.."@,
            Type::Let => "let"@,
            Type::Colon => ":"@,
            Type::If => "if"@,
            Type::For => "for"@,
            Type::While => "while"@,
            Type::Do => "do"@,
            Type::Break => "break"@,
            Type::Continue => "continue"@,
            Type::Return => "return"@,
            Type::Comma => ","@,
            Type::Function => "func"@,
            Type::Class => "class"@,
            Type::Public => "pub"@,
            Type::Private => "pri"@,
            Type::Inner => "inn"@,
            Type::Operator => "operator"@,
            _ => ""@,
        }
    }

    /// All source spellings this kind matches: two for whitespace (a space
    /// and a tab), otherwise the single fixed spelling.
    pub open spec fn spec_src_strings(&self) -> Seq<Seq<char>> {
        match self {
            Type::Whitespace => seq![" "@, "\t"@],
            _ => seq![self.spec_spelling()],
        }
    }

    pub fn src_strings(&self) -> (r: Vec<String>)
        ensures
            r@.len() == self.spec_src_strings().len(),
            forall|i: int| 0 <= i < r@.len() ==> r@[i]@ == self.spec_src_strings()[i],
    {
        match self {
            Type::Whitespace => two(" ", "\t"),
            Type::NewLine => one("\n"),
            Type::Semicolon => one(";"),
            Type::Module => one("mod"),
            Type::Boolean(b) => if *b {
                one("true")
            } else {
                one("false")
            },
            Type::Assignment => one("="),
            Type::LeftParen => one("("),
            Type::RightParen => one(")"),
            Type::LeftBrace => one("{"),
            Type::RightBrace => one("}"),
            Type::LeftBracket => one("["),
            Type::RightBracket => one("]"),
            Type::Addition => one("+"),
            Type::Subtraction => one("-"),
            Type::Multiplication => one("*"),
            Type::Division => one("/"),
            Type::Exponentiation => one("^"),
            Type::Modulo => one("%"),
            Type::And => one("&"),
            Type::Or => one("|"),
            Type::Nand => one("!&"),
            Type::Nor => one("!|"),
            Type::Xand => one("^&"),
            Type::Xor => one("^|"),
            Type::Not => one("!"),
            Type::Equal => one("=="),
            Type::NotEqual => one("!="),
            Type::GreaterThan => one(">"),
            Type::LessThan => one("<"),
            Type::GreaterThanOrEqual => one(">="),
            Type::LessThanOrEqual => one("<="),
            Type::LeftShift => one("<<"),
            Type::RightShift => one(">>"),
            Type::ZeroFillRightShift => one(">>>"),
            Type::CountLeadingZeros => one("<.."),
            Type::CountTrailingZeros => one(">.."),
            Type::Let => one("let"),
            Type::Colon => one(":"),
            Type::If => one("if"),
            Type::For => one("for"),
            Type::While => one("while"),
            Type::Do => one("do"),
            Type::Break => one("break"),
            Type::Continue => one("continue"),
            Type::Return => one("return"),
            Type::Comma => one(","),
            Type::Function => one("func"),
            Type::Class => one("class"),
            Type::Public => one("pub"),
            Type::Private => one("pri"),
            Type::Inner => one("inn"),
            Type::Operator => one("operator"),
            Type::Identifier(_) => one(""),
            Type::Number(_) => one(""),
            Type::EOF => one(""),
        }
    }
}

fn one(s: &str) -> (r: Vec<String>)
    ensures
        r@.len() == 1,
        r@[0]@ == s@,
{
    let mut v: Vec<String> = Vec::new();
    v.push(String::from_str(s));
    v
}

fn two(s: &str, t: &str) -> (r: Vec<String>)
    ensures
        r@.len() == 2,
        r@[0]@ == s@,
        r@[1]@ == t@,
{
    let mut v: Vec<String> = Vec::new();
    v.push(String::from_str(s));
    v.push(String::from_str(t));
    v
}

/// The symbol catalogue: every token kind the scanner recognises by a fixed
/// punctuation or operator spelling (keywords are recognised out of closed
/// capture buffers instead).
pub open spec fn spec_symbols() -> Seq<Type> {
    seq![
        Type::Whitespace,
        Type::NewLine,
        Type::Semicolon,
        Type::Assignment,
        Type::LeftParen,
        Type::RightParen,
        Type::LeftBrace,
        Type::RightBrace,
        Type::LeftBracket,
        Type::RightBracket,
        Type::Addition,
        Type::Subtraction,
        Type::Multiplication,
        Type::Division,
        Type::Exponentiation,
        Type::Modulo,
        Type::And,
        Type::Or,
        Type::Nand,
        Type::Nor,
        Type::Xand,
        Type::Xor,
        Type::Not,
        Type::Equal,
        Type::NotEqual,
        Type::GreaterThan,
        Type::LessThan,
        Type::GreaterThanOrEqual,
        Type::LessThanOrEqual,
        Type::LeftShift,
        Type::RightShift,
        Type::ZeroFillRightShift,
        Type::CountLeadingZeros,
        Type::CountTrailingZeros,
        Type::Colon,
        Type::Comma,
    ]
}

pub fn symbols() -> (r: Vec<Type>)
    ensures
        r@ == spec_symbols(),
{
    let mut v: Vec<Type> = Vec::new();
    v.push(Type::Whitespace);
    v.push(Type::NewLine);
    v.push(Type::Semicolon);
    v.push(Type::Assignment);
    v.push(Type::LeftParen);
    v.push(Type::RightParen);
    v.push(Type::LeftBrace);
    v.push(Type::RightBrace);
    v.push(Type::LeftBracket);
    v.push(Type::RightBracket);
    v.push(Type::Addition);
    v.push(Type::Subtraction);
    v.push(Type::Multiplication);
    v.push(Type::Division);
    v.push(Type::Exponentiation);
    v.push(Type::Modulo);
    v.push(Type::And);
    v.push(Type::Or);
    v.push(Type::Nand);
    v.push(Type::Nor);
    v.push(Type::Xand);
    v.push(Type::Xor);
    v.push(Type::Not);
    v.push(Type::Equal);
    v.push(Type::NotEqual);
    v.push(Type::GreaterThan);
    v.push(Type::LessThan);
    v.push(Type::GreaterThanOrEqual);
    v.push(Type::LessThanOrEqual);
    v.push(Type::LeftShift);
    v.push(Type::RightShift);
    v.push(Type::ZeroFillRightShift);
    v.push(Type::CountLeadingZeros);
    v.push(Type::CountTrailingZeros);
    v.push(Type::Colon);
    v.push(Type::Comma);
    proof {
        assert(v@ =~= spec_symbols());
    }
    v
}

/// The keyword catalogue: spellings that a closed capture buffer is matched
/// against after the numeric parse fails.
pub open spec fn spec_keywords() -> Seq<Type> {
    seq![
        Type::Module,
        Type::Boolean(true),
        Type::Boolean(false),
        Type::Let,
        Type::If,
        Type::For,
        Type::While,
        Type::Do,
        Type::Break,
        Type::Continue,
        Type::Return,
        Type::Function,
        Type::Class,
        Type::Public,
        Type::Private,
        Type::Inner,
        Type::Operator,
    ]
}

pub fn keywords() -> (r: Vec<Type>)
    ensures
        r@ == spec_keywords(),
{
    let mut v: Vec<Type> = Vec::new();
    v.push(Type::Module);
    v.push(Type::Boolean(true));
    v.push(Type::Boolean(false));
    v.push(Type::Let);
    v.push(Type::If);
    v.push(Type::For);
    v.push(Type::While);
    v.push(Type::Do);
    v.push(Type::Break);
    v.push(Type::Continue);
    v.push(Type::Return);
    v.push(Type::Function);
    v.push(Type::Class);
    v.push(Type::Public);
    v.push(Type::Private);
    v.push(Type::Inner);
    v.push(Type::Operator);
    proof {
        assert(v@ =~= spec_keywords());
    }
    v
}

/// The binary-operator precedence table, outermost (loosest-binding) tier
/// first. Operators within one tier associate left-to-right.
pub open spec fn spec_binary_operator_tiers() -> Seq<Seq<Type>> {
    seq![
        seq![Type::And, Type::Or, Type::Nand, Type::Nor, Type::Xand, Type::Xor],
        seq![
            Type::Equal,
            Type::NotEqual,
            Type::GreaterThan,
            Type::LessThan,
            Type::GreaterThanOrEqual,
            Type::LessThanOrEqual,
        ],
        seq![Type::LeftShift, Type::RightShift, Type::ZeroFillRightShift],
        seq![Type::Modulo],
        seq![Type::Addition, Type::Subtraction],
        seq![Type::Multiplication, Type::Division],
        seq![Type::Exponentiation],
    ]
}

pub fn binary_operator_tiers() -> (r: Vec<Vec<Type>>)
    ensures
        r@.len() == spec_binary_operator_tiers().len(),
        forall|i: int|
            0 <= i < r@.len() ==> r@[i]@ == spec_binary_operator_tiers()[i],
{
    let mut v: Vec<Vec<Type>> = Vec::new();
    let mut t: Vec<Type> = Vec::new();
    t.push(Type::And);
    t.push(Type::Or);
    t.push(Type::Nand);
    t.push(Type::Nor);
    t.push(Type::Xand);
    t.push(Type::Xor);
    proof {
        assert(t@ =~= spec_binary_operator_tiers()[0]);
    }
    v.push(t);
    let mut t: Vec<Type> = Vec::new();
    t.push(Type::Equal);
    t.push(Type::NotEqual);
    t.push(Type::GreaterThan);
    t.push(Type::LessThan);
    t.push(Type::GreaterThanOrEqual);
    t.push(Type::LessThanOrEqual);
    proof {
        assert(t@ =~= spec_binary_operator_tiers()[1]);
    }
    v.push(t);
    let mut t: Vec<Type> = Vec::new();
    t.push(Type::LeftShift);
    t.push(Type::RightShift);
    t.push(Type::ZeroFillRightShift);
    proof {
        assert(t@ =~= spec_binary_operator_tiers()[2]);
    }
    v.push(t);
    let mut t: Vec<Type> = Vec::new();
    t.push(Type::Modulo);
    proof {
        assert(t@ =~= spec_binary_operator_tiers()[3]);
    }
    v.push(t);
    let mut t: Vec<Type> = Vec::new();
    t.push(Type::Addition);
    t.push(Type::Subtraction);
    proof {
        assert(t@ =~= spec_binary_operator_tiers()[4]);
    }
    v.push(t);
    let mut t: Vec<Type> = Vec::new();
    t.push(Type::Multiplication);
    t.push(Type::Division);
    proof {
        assert(t@ =~= spec_binary_operator_tiers()[5]);
    }
    v.push(t);
    let mut t: Vec<Type> = Vec::new();
    t.push(Type::Exponentiation);
    proof {
        assert(t@ =~= spec_binary_operator_tiers()[6]);
    }
    v.push(t);
    v
}

/// The prefix unary-operator catalogue.
pub open spec fn spec_unary_operators() -> Seq<Type> {
    seq![Type::Not, Type::CountLeadingZeros, Type::CountTrailingZeros, Type::Subtraction]
}

pub fn unary_operators() -> (r: Vec<Type>)
    ensures
        r@ == spec_unary_operators(),
{
    let mut v: Vec<Type> = Vec::new();
    v.push(Type::Not);
    v.push(Type::CountLeadingZeros);
    v.push(Type::CountTrailingZeros);
    v.push(Type::Subtraction);
    proof {
        assert(v@ =~= spec_unary_operators());
    }
    v
}

/// A token: a lexical category together with the span of source text it was
/// read from. `size` is the width of the span in characters.
#[derive(Debug, Clone)]
pub struct Token {
    pub start: Location,
    pub end: Location,
    pub typ: Type,
    pub size: u32,
}

impl Token {
    pub fn new(start: Location, end: Location, typ: Type) -> (t: Token)
        requires
            start.idx <= end.idx,
        ensures
            t.start == start,
            t.end == end,
            t.typ == typ,
            t.size == end.idx - start.idx,
    {
        let size = end.idx - start.idx;
        Token { start, end, typ, size }
    }

    /// A zero-width end-of-stream token at the origin.
    pub fn empty() -> (t: Token)
        ensures
            t.start == (Location { row: 0, col: 0, idx: 0 }),
            t.end == (Location { row: 0, col: 0, idx: 0 }),
            t.typ == Type::EOF,
            t.size == 0,
    {
        Token { start: Location::empty(), end: Location::empty(), typ: Type::EOF, size: 0 }
    }

    /// A token whose end is not yet fixed: it records its start, kind and
    /// width, and is completed when the scanner advances past it.
    pub fn open(start: Location, typ: Type, size: u32) -> (t: Token)
        ensures
            t.start == start,
            t.end == start,
            t.typ == typ,
            t.size == size,
    {
        Token { start, end: start, typ, size }
    }
}

/// The mathematical shape of a token kind: a fixed kind, or an identifier
/// or numeric literal with its text.
pub enum KindV {
    Exact(Type),
    Ident(Seq<char>),
    Num(Seq<char>),
}

/// The mathematical shape of a token.
#[verifier::ext_equal]
pub struct TokenV {
    pub start: Location,
    pub end: Location,
    pub kind: KindV,
    pub size: u32,
}

/// The shape of a token kind.
pub open spec fn kind_v(t: Type) -> KindV {
    match t {
        Type::Identifier(n) => KindV::Ident(n@),
        Type::Number(x) => KindV::Num(x@),
        other => KindV::Exact(other),
    }
}

/// The shape of a token.
pub open spec fn tok_v(t: Token) -> TokenV {
    TokenV { start: t.start, end: t.end, kind: kind_v(t.typ), size: t.size }
}

/// The shapes of a token sequence.
pub open spec fn toks_v(ts: Seq<Token>) -> Seq<TokenV> {
    ts.map_values(|t: Token| tok_v(t))
}

/// Kinds that carry no text of their own.
pub open spec fn is_bare(t: Type) -> bool {
    !(t matches Type::Identifier(_)) && !(t matches Type::Number(_))
}

/// An exact copy of a kind that carries no text.
pub fn dup_bare(t: &Type) -> (r: Type)
    requires
        is_bare(*t),
    ensures
        r == *t,
{
    match t {
        Type::Identifier(_) => Type::EOF,
        Type::Number(_) => Type::EOF,
        Type::Whitespace => Type::Whitespace,
        Type::NewLine => Type::NewLine,
        Type::Semicolon => Type::Semicolon,
        Type::Module => Type::Module,
        Type::Boolean(b) => Type::Boolean(*b),
        Type::Assignment => Type::Assignment,
        Type::LeftParen => Type::LeftParen,
        Type::RightParen => Type::RightParen,
        Type::LeftBrace => Type::LeftBrace,
        Type::RightBrace => Type::RightBrace,
        Type::LeftBracket => Type::LeftBracket,
        Type::RightBracket => Type::RightBracket,
        Type::Addition => Type::Addition,
        Type::Subtraction => Type::Subtraction,
        Type::Multiplication => Type::Multiplication,
        Type::Division => Type::Division,
        Type::Exponentiation => Type::Exponentiation,
        Type::Modulo => Type::Modulo,
        Type::And => Type::And,
        Type::Or => Type::Or,
        Type::Nand => Type::Nand,
        Type::Nor => Type::Nor,
        Type::Xand => Type::Xand,
        Type::Xor => Type::Xor,
        Type::Not => Type::Not,
        Type::Equal => Type::Equal,
        Type::NotEqual => Type::NotEqual,
        Type::GreaterThan => Type::GreaterThan,
        Type::LessThan => Type::LessThan,
        Type::GreaterThanOrEqual => Type::GreaterThanOrEqual,
        Type::LessThanOrEqual => Type::LessThanOrEqual,
        Type::LeftShift => Type::LeftShift,
        Type::RightShift => Type::RightShift,
        Type::ZeroFillRightShift => Type::ZeroFillRightShift,
        Type::CountLeadingZeros => Type::CountLeadingZeros,
        Type::CountTrailingZeros => Type::CountTrailingZeros,
        Type::Let => Type::Let,
        Type::Colon => Type::Colon,
        Type::If => Type::If,
        Type::For => Type::For,
        Type::While => Type::While,
        Type::Do => Type::Do,
        Type::Break => Type::Break,
        Type::Continue => Type::Continue,
        Type::Return => Type::Return,
        Type::Comma => Type::Comma,
        Type::Function => Type::Function,
        Type::Class => Type::Class,
        Type::Public => Type::Public,
        Type::Private => Type::Private,
        Type::Inner => Type::Inner,
        Type::Operator => Type::Operator,
        Type::EOF => Type::EOF,
    }
}

/// A copy of any kind, exact up to the text an identifier or numeric
/// literal carries, which is copied character for character.
pub fn dup_type(t: &Type) -> (r: Type)
    ensures
        kind_v(r) == kind_v(*t),
        r.spec_tag() == t.spec_tag(),
{
    match t {
        Type::Identifier(n) => Type::Identifier(n.clone()),
        Type::Number(x) => Type::Number(x.clone()),
        other => dup_bare(other),
    }
}

/// A copy of a token, exact up to the text its kind carries.
pub fn dup_token(t: &Token) -> (r: Token)
    ensures
        tok_v(r) == tok_v(*t),
        r.typ.spec_tag() == t.typ.spec_tag(),
        r.start == t.start,
        r.end == t.end,
        r.size == t.size,
{
    Token { start: t.start, end: t.end, typ: dup_type(&t.typ), size: t.size }
}

/// Two kinds with the same shape, neither carrying text, are the same
/// kind outright.
pub proof fn lemma_bare_kind_eq(a: Type, b: Type)
    requires
        kind_v(a) == kind_v(b),
        is_bare(a),
    ensures
        a == b,
{
}

/// Every member of a binary-operator tier is a fixed kind.
pub proof fn lemma_tier_bare(t: Type, k: int)
    requires
        0 <= k < spec_binary_operator_tiers().len(),
        t.spec_is(spec_binary_operator_tiers()[k]),
    ensures
        is_bare(t),
{
    let tier = spec_binary_operator_tiers()[k];
    let j = choose|j: int| 0 <= j < tier.len() && t.same_kind(&tier[j]);
    assert(t.same_kind(&tier[j]));
}

/// Every prefix unary operator is a fixed kind.
pub proof fn lemma_unop_bare(t: Type)
    requires
        t.spec_is(spec_unary_operators()),
    ensures
        is_bare(t),
{
    let ops = spec_unary_operators();
    let j = choose|j: int| 0 <= j < ops.len() && t.same_kind(&ops[j]);
    assert(t.same_kind(&ops[j]));
}

} // verus!
