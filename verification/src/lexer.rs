use vstd::prelude::*;
use crate::text::{
    chars_to_string, is_ascii_digit, is_cjk, is_cjk_ideograph, is_digit, is_whitespace, is_ws,
    owned, push_str, same, str_chars, string_push,
};

verus! {

broadcast use vstd::string::group_string_axioms;

/// A lexical token. Keywords are Chinese words; punctuation accepts both
/// Chinese and English forms.
#[derive(Debug, Clone, PartialEq)]
pub enum Token {
    /// `@`
    At,
    /// `声明`
    Declare,
    /// `入口`
    Entry,
    /// `外部`
    External,
    /// `定义`
    Define,
    /// `方法`
    Method,
    /// `模块`
    Module,
    /// `结构`
    StructKw,
    /// `对象`
    ObjectKw,
    /// `构造`
    Construct,
    /// `创建`
    Create,
    /// `返回`
    ReturnKw,
    /// `判断`
    If,
    /// `若`
    ElseIf,
    /// `否则`
    Else,
    /// `当前`
    Current,
    /// `取`
    Case,
    /// `此外`
    Otherwise,
    /// `取值`
    TakeValue,
    /// `循环`
    Loop,
    /// `计数`
    Count,
    /// `条件`
    Condition,
    /// `迭代`
    Iterate,
    /// `无`
    VoidKw,
    /// `整数`
    IntKw,
    /// `小数`
    DoubleKw,
    /// `浮点`
    FloatKw,
    /// `布尔`
    BoolKw,
    /// `字符`
    CharKw,
    /// `字符串`
    StringKw,
    /// `数组`
    ArrayKw,
    /// `整型`
    IntTypeKw,
    /// `变量`
    Variable,
    /// `可变`
    Mutable,
    /// `设`
    Let,
    /// `#`
    Hash,
    /// `引用`
    Import,
    /// `为`
    AsKw,
    /// `执行`
    Execute,
    /// `(`
    LParen,
    /// `)`
    RParen,
    /// `[`
    LBracket,
    /// `]`
    RBracket,
    /// `:`
    Colon,
    /// `。。`
    ScopeEnd,
    /// `,`
    Comma,
    /// `=`
    Equals,
    /// `+`
    Plus,
    /// `-`
    Minus,
    /// `*`
    Star,
    /// `/`
    Slash,
    /// `%`
    Percent,
    /// `==`
    EqEq,
    /// `!=`
    NotEq,
    /// `<`
    Less,
    /// `<=`
    LessEq,
    /// `>`
    Greater,
    /// `>=`
    GreaterEq,
    /// `&&`
    AndAnd,
    /// `||`
    OrOr,
    /// `!`
    Bang,
    /// `->`
    Arrow,
    Ident(String),
    IntLiteral(i64),
    DoubleLiteral(String),
    StringLiteral(String),
    FormattedStringLiteral(String),
    Error(String),
    Eof,
}

/// The mathematical value of a token: strings become character sequences.
pub enum SpecToken {
    At,
    Declare,
    Entry,
    External,
    Define,
    Method,
    Module,
    StructKw,
    ObjectKw,
    Construct,
    Create,
    ReturnKw,
    If,
    ElseIf,
    Else,
    Current,
    Case,
    Otherwise,
    TakeValue,
    Loop,
    Count,
    Condition,
    Iterate,
    VoidKw,
    IntKw,
    DoubleKw,
    FloatKw,
    BoolKw,
    CharKw,
    StringKw,
    ArrayKw,
    IntTypeKw,
    Variable,
    Mutable,
    Let,
    Hash,
    Import,
    AsKw,
    Execute,
    LParen,
    RParen,
    LBracket,
    RBracket,
    Colon,
    ScopeEnd,
    Comma,
    Equals,
    Plus,
    Minus,
    Star,
    Slash,
    Percent,
    EqEq,
    NotEq,
    Less,
    LessEq,
    Greater,
    GreaterEq,
    AndAnd,
    OrOr,
    Bang,
    Arrow,
    Ident(Seq<char>),
    IntLiteral(i64),
    DoubleLiteral(Seq<char>),
    StringLiteral(Seq<char>),
    FormattedStringLiteral(Seq<char>),
    Error(Seq<char>),
    Eof,
}

impl View for Token {
    type V = SpecToken;

    open spec fn view(&self) -> SpecToken {
        match self {
            Token::At => SpecToken::At,
            Token::Declare => SpecToken::Declare,
            Token::Entry => SpecToken::Entry,
            Token::External => SpecToken::External,
            Token::Define => SpecToken::Define,
            Token::Method => SpecToken::Method,
            Token::Module => SpecToken::Module,
            Token::StructKw => SpecToken::StructKw,
            Token::ObjectKw => SpecToken::ObjectKw,
            Token::Construct => SpecToken::Construct,
            Token::Create => SpecToken::Create,
            Token::ReturnKw => SpecToken::ReturnKw,
            Token::If => SpecToken::If,
            Token::ElseIf => SpecToken::ElseIf,
            Token::Else => SpecToken::Else,
            Token::Current => SpecToken::Current,
            Token::Case => SpecToken::Case,
            Token::Otherwise => SpecToken::Otherwise,
            Token::TakeValue => SpecToken::TakeValue,
            Token::Loop => SpecToken::Loop,
            Token::Count => SpecToken::Count,
            Token::Condition => SpecToken::Condition,
            Token::Iterate => SpecToken::Iterate,
            Token::VoidKw => SpecToken::VoidKw,
            Token::IntKw => SpecToken::IntKw,
            Token::DoubleKw => SpecToken::DoubleKw,
            Token::FloatKw => SpecToken::FloatKw,
            Token::BoolKw => SpecToken::BoolKw,
            Token::CharKw => SpecToken::CharKw,
            Token::StringKw => SpecToken::StringKw,
            Token::ArrayKw => SpecToken::ArrayKw,
            Token::IntTypeKw => SpecToken::IntTypeKw,
            Token::Variable => SpecToken::Variable,
            Token::Mutable => SpecToken::Mutable,
            Token::Let => SpecToken::Let,
            Token::Hash => SpecToken::Hash,
            Token::Import => SpecToken::Import,
            Token::AsKw => SpecToken::AsKw,
            Token::Execute => SpecToken::Execute,
            Token::LParen => SpecToken::LParen,
            Token::RParen => SpecToken::RParen,
            Token::LBracket => SpecToken::LBracket,
            Token::RBracket => SpecToken::RBracket,
            Token::Colon => SpecToken::Colon,
            Token::ScopeEnd => SpecToken::ScopeEnd,
            Token::Comma => SpecToken::Comma,
            Token::Equals => SpecToken::Equals,
            Token::Plus => SpecToken::Plus,
            Token::Minus => SpecToken::Minus,
            Token::Star => SpecToken::Star,
            Token::Slash => SpecToken::Slash,
            Token::Percent => SpecToken::Percent,
            Token::EqEq => SpecToken::EqEq,
            Token::NotEq => SpecToken::NotEq,
            Token::Less => SpecToken::Less,
            Token::LessEq => SpecToken::LessEq,
            Token::Greater => SpecToken::Greater,
            Token::GreaterEq => SpecToken::GreaterEq,
            Token::AndAnd => SpecToken::AndAnd,
            Token::OrOr => SpecToken::OrOr,
            Token::Bang => SpecToken::Bang,
            Token::Arrow => SpecToken::Arrow,
            Token::Ident(v) => SpecToken::Ident(v@),
            Token::IntLiteral(v) => SpecToken::IntLiteral(*v),
            Token::DoubleLiteral(v) => SpecToken::DoubleLiteral(v@),
            Token::StringLiteral(v) => SpecToken::StringLiteral(v@),
            Token::FormattedStringLiteral(v) => SpecToken::FormattedStringLiteral(v@),
            Token::Error(v) => SpecToken::Error(v@),
            Token::Eof => SpecToken::Eof,
        }
    }
}

/// A half-open range of character offsets in the source.
#[derive(Debug, Clone, Copy, PartialEq, Eq, Structural)]
pub struct Span {
    pub start: usize,
    pub end: usize,
}

/// Whether `s[i]` exists and is `c`.
pub open spec fn char_at(s: Seq<char>, i: int, c: char) -> bool {
    0 <= i < s.len() && s[i] == c
}

/// The offset after whitespace and `//` line comments starting at `p`;
/// `in_comment` says that a comment is being skipped.
pub open spec fn skip_trivia_from(s: Seq<char>, p: int, in_comment: bool) -> int
    decreases s.len() - p,
{
    if p < 0 || p >= s.len() {
        p
    } else if in_comment {
        if s[p] == '\n' {
            skip_trivia_from(s, p + 1, false)
        } else {
            skip_trivia_from(s, p + 1, true)
        }
    } else if is_ws(s[p]) {
        skip_trivia_from(s, p + 1, false)
    } else if s[p] == '/' && char_at(s, p + 1, '/') {
        skip_trivia_from(s, p + 1, true)
    } else {
        p
    }
}

pub open spec fn skip_trivia(s: Seq<char>, p: int) -> int {
    skip_trivia_from(s, p, false)
}

/// The keyword that starts at `p`, with its length in characters.
/// The three-character keyword wins over two-character ones, which win over
/// one-character ones.
pub open spec fn keyword_at(s: Seq<char>, p: int) -> Option<(SpecToken, int)> {
    if p < 0 || p >= s.len() || !is_cjk(s[p]) {
        None
    } else if p + 2 < s.len() && is_cjk(s[p + 1]) && is_cjk(s[p + 2]) && s[p] == '字' && s[p
        + 1] == '符' && s[p + 2] == '串' {
        Some((SpecToken::StringKw, 3))
    } else if p + 1 < s.len() && is_cjk(s[p + 1]) && keyword2(s[p], s[p + 1]) is Some {
        Some((keyword2(s[p], s[p + 1])->0, 2))
    } else if keyword1(s[p]) is Some {
        Some((keyword1(s[p])->0, 1))
    } else {
        None
    }
}

/// Characters that always end an identifier.
pub open spec fn ends_identifier(c: char) -> bool {
    ||| c == '@' || c == '(' || c == ')' || c == '（' || c == '）'
    ||| c == '[' || c == ']' || c == '【' || c == '】' || c == ':' || c == '：'
    ||| c == ',' || c == '，' || c == '.' || c == '。' || c == '='
    ||| c == '+' || c == '*' || c == '/' || c == '%' || c == '!'
    ||| c == '<' || c == '>' || c == '&' || c == '|'
}

/// The end of the identifier that starts at `start`, scanning from `q`.
/// A `-` belongs to a name only between two CJK ideographs (module paths
/// such as `标准库-输入输出`); `为` always ends a name; a name may not begin
/// with a keyword.
pub open spec fn ident_end(s: Seq<char>, start: int, q: int) -> int
    decreases s.len() - q,
{
    if q < 0 || q >= s.len() {
        q
    } else if is_ws(s[q]) || ends_identifier(s[q]) || s[q] == '为' {
        q
    } else if s[q] == '-' && !(q > start && is_cjk(s[q - 1]) && q + 1 < s.len() && is_cjk(
        s[q + 1],
    )) {
        q
    } else if q == start && is_cjk(s[q]) && keyword_at(s, q) is Some {
        q
    } else {
        ident_end(s, start, q + 1)
    }
}

/// The end of the run of ASCII digits starting at `p`.
pub open spec fn digits_end(s: Seq<char>, p: int) -> int
    decreases s.len() - p,
{
    if 0 <= p < s.len() && is_digit(s[p]) {
        digits_end(s, p + 1)
    } else {
        p
    }
}

/// The value of a string of decimal digits.
pub open spec fn digits_value(d: Seq<char>) -> nat
    decreases d.len(),
{
    if d.len() == 0 {
        0
    } else {
        digits_value(d.drop_last()) * 10 + ((d.last() as u32) - ('0' as u32)) as nat
    }
}

/// The first offset at or after `p` holding `c`, or `s.len()`.
pub open spec fn find_char(s: Seq<char>, p: int, c: char) -> int
    decreases s.len() - p,
{
    if p < 0 || p >= s.len() {
        s.len() as int
    } else if s[p] == c {
        p
    } else {
        find_char(s, p + 1, c)
    }
}

/// A quoted literal whose opening quote is at `q`.
pub open spec fn string_token(s: Seq<char>, q: int, closing: char, formatted: bool) -> (
    SpecToken,
    int,
) {
    let e = find_char(s, q + 1, closing);
    if e < s.len() {
        let body = s.subrange(q + 1, e);
        (
            if formatted {
                SpecToken::FormattedStringLiteral(body)
            } else {
                SpecToken::StringLiteral(body)
            },
            e + 1,
        )
    } else {
        (SpecToken::Error("Unterminated string literal"@), s.len() as int)
    }
}

/// A number literal starting at `p`: digits, optionally followed by `.` and
/// more digits (a decimal literal, kept as its source text).
pub open spec fn number_token(s: Seq<char>, p: int) -> (SpecToken, int) {
    let e = digits_end(s, p);
    if char_at(s, e, '.') && e + 1 < s.len() && is_digit(s[e + 1]) {
        let f = digits_end(s, e + 1);
        (SpecToken::DoubleLiteral(s.subrange(p, f)), f)
    } else {
        let d = s.subrange(p, e);
        if digits_value(d) <= i64::MAX {
            (SpecToken::IntLiteral(digits_value(d) as i64), e)
        } else {
            (SpecToken::Error("整数文字 `"@ + d + "` 超出了 i64 的范围"@), e)
        }
    }
}

/// A one- or two-character operator: `two` when `s[p + 1]` is `second`.
pub open spec fn pair_token(s: Seq<char>, p: int, second: char, two: SpecToken, one: SpecToken) -> (
    SpecToken,
    int,
) {
    if char_at(s, p + 1, second) {
        (two, p + 2)
    } else {
        (one, p + 1)
    }
}

/// The token that starts at `p` (past any trivia) and the offset after it.
pub open spec fn lex_token(s: Seq<char>, p: int) -> (SpecToken, int) {
    if p < 0 || p >= s.len() {
        (SpecToken::Eof, p)
    } else {
        let c = s[p];
        if c == 'f' && char_at(s, p + 1, '"') {
            string_token(s, p + 1, '"', true)
        } else if c == 'f' && char_at(s, p + 1, '“') {
            string_token(s, p + 1, '”', true)
        } else if c == '#' {
            (SpecToken::Hash, p + 1)
        } else if c == '@' {
            (SpecToken::At, p + 1)
        } else if c == '"' {
            string_token(s, p, '"', false)
        } else if c == '“' {
            string_token(s, p, '”', false)
        } else if c == '(' || c == '（' {
            (SpecToken::LParen, p + 1)
        } else if c == ')' || c == '）' {
            (SpecToken::RParen, p + 1)
        } else if c == '[' || c == '【' {
            (SpecToken::LBracket, p + 1)
        } else if c == ']' || c == '】' {
            (SpecToken::RBracket, p + 1)
        } else if c == ':' || c == '：' {
            (SpecToken::Colon, p + 1)
        } else if c == ',' || c == '，' {
            (SpecToken::Comma, p + 1)
        } else if c == '.' {
            pair_token(s, p, '.', SpecToken::ScopeEnd, SpecToken::ScopeEnd)
        } else if c == '。' {
            pair_token(s, p, '。', SpecToken::ScopeEnd, SpecToken::ScopeEnd)
        } else if c == '=' {
            pair_token(s, p, '=', SpecToken::EqEq, SpecToken::Equals)
        } else if c == '+' {
            (SpecToken::Plus, p + 1)
        } else if c == '-' {
            pair_token(s, p, '>', SpecToken::Arrow, SpecToken::Minus)
        } else if c == '*' {
            (SpecToken::Star, p + 1)
        } else if c == '/' {
            (SpecToken::Slash, p + 1)
        } else if c == '%' {
            (SpecToken::Percent, p + 1)
        } else if c == '!' {
            pair_token(s, p, '=', SpecToken::NotEq, SpecToken::Bang)
        } else if c == '<' {
            pair_token(s, p, '=', SpecToken::LessEq, SpecToken::Less)
        } else if c == '>' {
            pair_token(s, p, '=', SpecToken::GreaterEq, SpecToken::Greater)
        } else if c == '&' {
            pair_token(s, p, '&', SpecToken::AndAnd, SpecToken::Error(lone_and_message()))
        } else if c == '|' {
            pair_token(s, p, '|', SpecToken::OrOr, SpecToken::Error(lone_or_message()))
        } else if is_digit(c) {
            number_token(s, p)
        } else if keyword_at(s, p) is Some {
            {
                let (t, n) = keyword_at(s, p)->0;
                (t, p + n)
            }
        } else {
            let e = ident_end(s, p, p);
            if e == p {
                (SpecToken::Error("无法识别字符 `"@.push(c) + "`"@), p + 1)
            } else {
                (SpecToken::Ident(s.subrange(p, e)), e)
            }
        }
    }
}

/// The lookahead that stops a name in front of a keyword and the reading of
/// keywords agree: where a name may not start because a keyword begins at a
/// CJK character, a token read there is that keyword, exactly as long.
pub proof fn lemma_keyword_lookahead_agrees(s: Seq<char>, p: int)
    requires
        0 <= p < s.len(),
        is_cjk(s[p]),
        keyword_at(s, p) is Some,
    ensures
        ident_end(s, p, p) == p,
        keyword_at(s, p) matches Some((t, n)) && lex_token(s, p) == (t, p + n),
{
    let c = s[p];
    assert(!is_ws(c));
    assert(c != 'f' && c != '#' && c != '@' && c != '"' && c != '“');
    assert(c != '(' && c != '（' && c != ')' && c != '）' && c != '[' && c != '【' && c != ']' && c != '】');
    assert(c != ':' && c != '：' && c != ',' && c != '，' && c != '.' && c != '。' && c != '=' && c != '+');
    assert(c != '-' && c != '*' && c != '/' && c != '%' && c != '!' && c != '<' && c != '>' && c != '&' && c != '|');
    assert(!is_digit(c));
}

pub open spec fn lone_and_message() -> Seq<char> {
    "无法识别字符 `&`；如果要表达逻辑且，请使用 `&&` 或 `且`"@
}

pub open spec fn lone_or_message() -> Seq<char> {
    "无法识别字符 `|`；如果要表达逻辑或，请使用 `||` 或 `或`"@
}

/// The next token read from offset `p`: trivia is skipped first.
pub open spec fn next_token_at(s: Seq<char>, p: int) -> (SpecToken, int) {
    lex_token(s, skip_trivia(s, p))
}

/// The span recorded after reading the next token from `p`, given the span
/// recorded before.
pub open spec fn span_after(s: Seq<char>, p: int, prev: Span) -> Span {
    let q = skip_trivia(s, p);
    let e = next_token_at(s, p).1;
    if q >= s.len() {
        Span { start: q as usize, end: q as usize }
    } else if is_digit(s[q]) {
        prev
    } else {
        Span { start: q as usize, end: e as usize }
    }
}

/// Two-character keywords.
pub open spec fn keyword2(a: char, b: char) -> Option<SpecToken> {
    if a == '声' && b == '明' {
        Some(SpecToken::Declare)
    } else if a == '入' && b == '口' {
        Some(SpecToken::Entry)
    } else if a == '外' && b == '部' {
        Some(SpecToken::External)
    } else if a == '定' && b == '义' {
        Some(SpecToken::Define)
    } else if a == '方' && b == '法' {
        Some(SpecToken::Method)
    } else if a == '模' && b == '块' {
        Some(SpecToken::Module)
    } else if a == '结' && b == '构' {
        Some(SpecToken::StructKw)
    } else if a == '对' && b == '象' {
        Some(SpecToken::ObjectKw)
    } else if a == '构' && b == '造' {
        Some(SpecToken::Construct)
    } else if a == '创' && b == '建' {
        Some(SpecToken::Create)
    } else if a == '返' && b == '回' {
        Some(SpecToken::ReturnKw)
    } else if a == '判' && b == '断' {
        Some(SpecToken::If)
    } else if a == '否' && b == '则' {
        Some(SpecToken::Else)
    } else if a == '当' && b == '前' {
        Some(SpecToken::Current)
    } else if a == '取' && b == '值' {
        Some(SpecToken::TakeValue)
    } else if a == '此' && b == '外' {
        Some(SpecToken::Otherwise)
    } else if a == '循' && b == '环' {
        Some(SpecToken::Loop)
    } else if a == '计' && b == '数' {
        Some(SpecToken::Count)
    } else if a == '条' && b == '件' {
        Some(SpecToken::Condition)
    } else if a == '迭' && b == '代' {
        Some(SpecToken::Iterate)
    } else if a == '引' && b == '用' {
        Some(SpecToken::Import)
    } else if a == '执' && b == '行' {
        Some(SpecToken::Execute)
    } else if a == '整' && b == '数' {
        Some(SpecToken::IntKw)
    } else if a == '小' && b == '数' {
        Some(SpecToken::DoubleKw)
    } else if a == '浮' && b == '点' {
        Some(SpecToken::FloatKw)
    } else if a == '布' && b == '尔' {
        Some(SpecToken::BoolKw)
    } else if a == '字' && b == '符' {
        Some(SpecToken::CharKw)
    } else if a == '数' && b == '组' {
        Some(SpecToken::ArrayKw)
    } else if a == '变' && b == '量' {
        Some(SpecToken::Variable)
    } else if a == '可' && b == '变' {
        Some(SpecToken::Mutable)
    } else if a == '整' && b == '型' {
        Some(SpecToken::IntTypeKw)
    } else {
        None
    }
}

/// One-character keywords.
pub open spec fn keyword1(a: char) -> Option<SpecToken> {
    if a == '无' {
        Some(SpecToken::VoidKw)
    } else if a == '设' {
        Some(SpecToken::Let)
    } else if a == '令' {
        Some(SpecToken::Let)
    } else if a == '为' {
        Some(SpecToken::AsKw)
    } else if a == '若' {
        Some(SpecToken::ElseIf)
    } else if a == '取' {
        Some(SpecToken::Case)
    } else if a == '且' {
        Some(SpecToken::AndAnd)
    } else if a == '或' {
        Some(SpecToken::OrOr)
    } else {
        None
    }
}

fn keyword2_token(a: char, b: char) -> (r: Option<Token>)
    ensures
        match r {
            Some(t) => keyword2(a, b) == Some(t@),
            None => keyword2(a, b) is None,
        },
{
    if a == '声' && b == '明' {
        Some(Token::Declare)
    } else if a == '入' && b == '口' {
        Some(Token::Entry)
    } else if a == '外' && b == '部' {
        Some(Token::External)
    } else if a == '定' && b == '义' {
        Some(Token::Define)
    } else if a == '方' && b == '法' {
        Some(Token::Method)
    } else if a == '模' && b == '块' {
        Some(Token::Module)
    } else if a == '结' && b == '构' {
        Some(Token::StructKw)
    } else if a == '对' && b == '象' {
        Some(Token::ObjectKw)
    } else if a == '构' && b == '造' {
        Some(Token::Construct)
    } else if a == '创' && b == '建' {
        Some(Token::Create)
    } else if a == '返' && b == '回' {
        Some(Token::ReturnKw)
    } else if a == '判' && b == '断' {
        Some(Token::If)
    } else if a == '否' && b == '则' {
        Some(Token::Else)
    } else if a == '当' && b == '前' {
        Some(Token::Current)
    } else if a == '取' && b == '值' {
        Some(Token::TakeValue)
    } else if a == '此' && b == '外' {
        Some(Token::Otherwise)
    } else if a == '循' && b == '环' {
        Some(Token::Loop)
    } else if a == '计' && b == '数' {
        Some(Token::Count)
    } else if a == '条' && b == '件' {
        Some(Token::Condition)
    } else if a == '迭' && b == '代' {
        Some(Token::Iterate)
    } else if a == '引' && b == '用' {
        Some(Token::Import)
    } else if a == '执' && b == '行' {
        Some(Token::Execute)
    } else if a == '整' && b == '数' {
        Some(Token::IntKw)
    } else if a == '小' && b == '数' {
        Some(Token::DoubleKw)
    } else if a == '浮' && b == '点' {
        Some(Token::FloatKw)
    } else if a == '布' && b == '尔' {
        Some(Token::BoolKw)
    } else if a == '字' && b == '符' {
        Some(Token::CharKw)
    } else if a == '数' && b == '组' {
        Some(Token::ArrayKw)
    } else if a == '变' && b == '量' {
        Some(Token::Variable)
    } else if a == '可' && b == '变' {
        Some(Token::Mutable)
    } else if a == '整' && b == '型' {
        Some(Token::IntTypeKw)
    } else {
        None
    }
}

fn keyword1_token(a: char) -> (r: Option<Token>)
    ensures
        match r {
            Some(t) => keyword1(a) == Some(t@),
            None => keyword1(a) is None,
        },
{
    if a == '无' {
        Some(Token::VoidKw)
    } else if a == '设' {
        Some(Token::Let)
    } else if a == '令' {
        Some(Token::Let)
    } else if a == '为' {
        Some(Token::AsKw)
    } else if a == '若' {
        Some(Token::ElseIf)
    } else if a == '取' {
        Some(Token::Case)
    } else if a == '且' {
        Some(Token::AndAnd)
    } else if a == '或' {
        Some(Token::OrOr)
    } else {
        None
    }
}

fn skip_trivia_exec(src: &Vec<char>, p: usize) -> (r: usize)
    requires
        p <= src@.len(),
    ensures
        r as int == skip_trivia(src@, p as int),
        p <= r <= src@.len(),
{
    let mut q = p;
    let mut in_comment = false;
    while q < src.len()
        invariant_except_break
            p <= q <= src@.len(),
            skip_trivia_from(src@, q as int, in_comment) == skip_trivia(src@, p as int),
        ensures
            p <= q <= src@.len(),
            q as int == skip_trivia(src@, p as int),
        decreases src@.len() - q,
    {
        let c = src[q];
        if in_comment {
            if c == '\n' {
                in_comment = false;
            }
            q += 1;
        } else if is_whitespace(c) {
            q += 1;
        } else if c == '/' && q + 1 < src.len() && src[q + 1] == '/' {
            in_comment = true;
            q += 1;
        } else {
            break;
        }
    }
    q
}

fn keyword_at_exec(src: &Vec<char>, p: usize) -> (r: Option<(Token, usize)>)
    requires
        p < src.len(),
    ensures
        match r {
            Some((t, n)) => keyword_at(src@, p as int) == Some((t@, n as int)),
            None => keyword_at(src@, p as int) is None,
        },
{
    let c1 = src[p];
    if !is_cjk_ideograph(c1) {
        return None;
    }
    if src.len() - p > 2 && is_cjk_ideograph(src[p + 1]) && is_cjk_ideograph(src[p + 2]) && c1
        == '字' && src[p + 1] == '符' && src[p + 2] == '串' {
        return Some((Token::StringKw, 3));
    }
    if p + 1 < src.len() && is_cjk_ideograph(src[p + 1]) {
        if let Some(t) = keyword2_token(c1, src[p + 1]) {
            return Some((t, 2));
        }
    }
    match keyword1_token(c1) {
        Some(t) => Some((t, 1)),
        None => None,
    }
}

fn ends_identifier_exec(c: char) -> (r: bool)
    ensures
        r == ends_identifier(c),
{
    c == '@' || c == '(' || c == ')' || c == '（' || c == '）' || c == '[' || c == ']' || c == '【'
        || c == '】' || c == ':' || c == '：' || c == ',' || c == '，' || c == '.' || c == '。' || c
        == '=' || c == '+' || c == '*' || c == '/' || c == '%' || c == '!' || c == '<' || c == '>'
        || c == '&' || c == '|'
}

fn ident_end_exec(src: &Vec<char>, start: usize) -> (r: usize)
    requires
        start <= src@.len(),
    ensures
        r as int == ident_end(src@, start as int, start as int),
        start <= r <= src@.len(),
{
    let mut q = start;
    while q < src.len()
        invariant_except_break
            start <= q <= src@.len(),
            ident_end(src@, start as int, q as int) == ident_end(src@, start as int, start as int),
        ensures
            start <= q <= src@.len(),
            q as int == ident_end(src@, start as int, start as int),
        decreases src@.len() - q,
    {
        let c = src[q];
        if is_whitespace(c) || ends_identifier_exec(c) || c == '为' {
            break;
        }
        if c == '-' {
            let prev_is_cjk = q > start && is_cjk_ideograph(src[q - 1]);
            let next_is_cjk = q + 1 < src.len() && is_cjk_ideograph(src[q + 1]);
            if !prev_is_cjk || !next_is_cjk {
                break;
            }
        }
        if q == start && is_cjk_ideograph(c) && keyword_at_exec(src, q).is_some() {
            break;
        }
        q += 1;
    }
    q
}

fn digits_end_exec(src: &Vec<char>, p: usize) -> (r: usize)
    requires
        p <= src@.len(),
    ensures
        r as int == digits_end(src@, p as int),
        p <= r <= src@.len(),
{
    let mut q = p;
    while q < src.len() && is_ascii_digit(src[q])
        invariant
            p <= q <= src@.len(),
            digits_end(src@, q as int) == digits_end(src@, p as int),
        decreases src@.len() - q,
    {
        q += 1;
    }
    q
}

proof fn lemma_digits_value_grows(d: Seq<char>, c: char)
    requires
        is_digit(c),
    ensures
        digits_value(d.push(c)) == digits_value(d) * 10 + ((c as u32) - ('0' as u32)) as nat,
        digits_value(d.push(c)) >= digits_value(d),
{
    assert(d.push(c).drop_last() =~= d);
}

/// The value of `src[p..e]` when it fits in an `i64`.
fn digits_value_exec(src: &Vec<char>, p: usize, e: usize) -> (r: Option<i64>)
    requires
        p <= e <= src@.len(),
        forall|i: int| p <= i < e ==> is_digit(#[trigger] src@[i]),
    ensures
        match r {
            Some(v) => digits_value(src@.subrange(p as int, e as int)) == v as int,
            None => digits_value(src@.subrange(p as int, e as int)) > i64::MAX,
        },
{
    let mut v: i64 = 0;
    let mut overflow = false;
    let mut q = p;
    assert(src@.subrange(p as int, p as int) =~= Seq::<char>::empty());
    while q < e
        invariant
            p <= q <= e <= src@.len(),
            forall|i: int| p <= i < e ==> is_digit(#[trigger] src@[i]),
            !overflow ==> digits_value(src@.subrange(p as int, q as int)) == v as int,
            overflow ==> digits_value(src@.subrange(p as int, q as int)) > i64::MAX,
            v >= 0,
        decreases e - q,
    {
        let c = src[q];
        proof {
            assert(is_digit(src@[q as int]));
            lemma_digits_value_grows(src@.subrange(p as int, q as int), c);
            assert(src@.subrange(p as int, q + 1) =~= src@.subrange(p as int, q as int).push(c));
        }
        let d = (c as u32 - '0' as u32) as i64;
        if !overflow {
            if v > (i64::MAX - d) / 10 {
                overflow = true;
            } else {
                v = v * 10 + d;
            }
        }
        q += 1;
    }
    if overflow {
        None
    } else {
        Some(v)
    }
}

pub proof fn lemma_digits_end_all_digits(s: Seq<char>, p: int)
    requires
        0 <= p <= s.len(),
    ensures
        p <= digits_end(s, p) <= s.len(),
        forall|i: int| p <= i < digits_end(s, p) ==> is_digit(#[trigger] s[i]),
    decreases s.len() - p,
{
    if p < s.len() && is_digit(s[p]) {
        lemma_digits_end_all_digits(s, p + 1);
    }
}

fn number_token_exec(src: &Vec<char>, p: usize) -> (r: (Token, usize))
    requires
        p < src.len(),
        is_digit(src@[p as int]),
    ensures
        (r.0@, r.1 as int) == number_token(src@, p as int),
{
    let e = digits_end_exec(src, p);
    proof {
        lemma_digits_end_all_digits(src@, p as int);
    }
    if e < src.len() && src[e] == '.' && e + 1 < src.len() && is_ascii_digit(src[e + 1]) {
        let f = digits_end_exec(src, e + 1);
        return (Token::DoubleLiteral(chars_to_string(src, p, f)), f);
    }
    match digits_value_exec(src, p, e) {
        Some(v) => (Token::IntLiteral(v), e),
        None => {
            let mut msg = owned("整数文字 `");
            let digits = chars_to_string(src, p, e);
            push_str(&mut msg, digits.as_str());
            push_str(&mut msg, "` 超出了 i64 的范围");
            (Token::Error(msg), e)
        },
    }
}

pub(crate) fn find_char_exec(src: &Vec<char>, p: usize, c: char) -> (r: usize)
    requires
        p <= src@.len(),
    ensures
        r as int == find_char(src@, p as int, c),
        p <= r <= src@.len(),
{
    let mut q = p;
    while q < src.len() && src[q] != c
        invariant
            p <= q <= src@.len(),
            find_char(src@, q as int, c) == find_char(src@, p as int, c),
        decreases src@.len() - q,
    {
        q += 1;
    }
    q
}

fn string_token_exec(src: &Vec<char>, q: usize, closing: char, formatted: bool) -> (r: (
    Token,
    usize,
))
    requires
        q < src.len(),
    ensures
        (r.0@, r.1 as int) == string_token(src@, q as int, closing, formatted),
{
    let e = find_char_exec(src, q + 1, closing);
    if e < src.len() {
        let body = chars_to_string(src, q + 1, e);
        if formatted {
            (Token::FormattedStringLiteral(body), e + 1)
        } else {
            (Token::StringLiteral(body), e + 1)
        }
    } else {
        (Token::Error(owned("Unterminated string literal")), src.len())
    }
}

fn pair_token_exec(src: &Vec<char>, p: usize, second: char, two: Token, one: Token) -> (r: (
    Token,
    usize,
))
    requires
        p < src.len(),
    ensures
        (r.0@, r.1 as int) == pair_token(src@, p as int, second, two@, one@),
{
    if p + 1 < src.len() && src[p + 1] == second {
        (two, p + 2)
    } else {
        (one, p + 1)
    }
}

fn next_is(src: &Vec<char>, p: usize, ch: char) -> (b: bool)
    requires
        p < src.len(),
    ensures
        b == char_at(src@, p + 1, ch),
{
    p + 1 < src.len() && src[p + 1] == ch
}

fn lex_token_exec(src: &Vec<char>, p: usize) -> (r: (Token, usize))
    requires
        p < src.len(),
    ensures
        (r.0@, r.1 as int) == lex_token(src@, p as int),
{
    let c = src[p];
    if c == 'f' && next_is(src, p, '"') {
        string_token_exec(src, p + 1, '"', true)
    } else if c == 'f' && next_is(src, p, '“') {
        string_token_exec(src, p + 1, '”', true)
    } else if c == '#' {
        (Token::Hash, p + 1)
    } else if c == '@' {
        (Token::At, p + 1)
    } else if c == '"' {
        string_token_exec(src, p, '"', false)
    } else if c == '“' {
        string_token_exec(src, p, '”', false)
    } else if c == '(' || c == '（' {
        (Token::LParen, p + 1)
    } else if c == ')' || c == '）' {
        (Token::RParen, p + 1)
    } else if c == '[' || c == '【' {
        (Token::LBracket, p + 1)
    } else if c == ']' || c == '】' {
        (Token::RBracket, p + 1)
    } else if c == ':' || c == '：' {
        (Token::Colon, p + 1)
    } else if c == ',' || c == '，' {
        (Token::Comma, p + 1)
    } else if c == '.' {
        pair_token_exec(src, p, '.', Token::ScopeEnd, Token::ScopeEnd)
    } else if c == '。' {
        pair_token_exec(src, p, '。', Token::ScopeEnd, Token::ScopeEnd)
    } else if c == '=' {
        pair_token_exec(src, p, '=', Token::EqEq, Token::Equals)
    } else if c == '+' {
        (Token::Plus, p + 1)
    } else if c == '-' {
        pair_token_exec(src, p, '>', Token::Arrow, Token::Minus)
    } else if c == '*' {
        (Token::Star, p + 1)
    } else if c == '/' {
        (Token::Slash, p + 1)
    } else if c == '%' {
        (Token::Percent, p + 1)
    } else if c == '!' {
        pair_token_exec(src, p, '=', Token::NotEq, Token::Bang)
    } else if c == '<' {
        pair_token_exec(src, p, '=', Token::LessEq, Token::Less)
    } else if c == '>' {
        pair_token_exec(src, p, '=', Token::GreaterEq, Token::Greater)
    } else if c == '&' {
        pair_token_exec(
            src,
            p,
            '&',
            Token::AndAnd,
            Token::Error(owned("无法识别字符 `&`；如果要表达逻辑且，请使用 `&&` 或 `且`")),
        )
    } else if c == '|' {
        pair_token_exec(
            src,
            p,
            '|',
            Token::OrOr,
            Token::Error(owned("无法识别字符 `|`；如果要表达逻辑或，请使用 `||` 或 `或`")),
        )
    } else if is_ascii_digit(c) {
        number_token_exec(src, p)
    } else if let Some((t, n)) = keyword_at_exec(src, p) {
        (t, p + n)
    } else {
        let e = ident_end_exec(src, p);
        if e == p {
            let mut msg = owned("无法识别字符 `");
            string_push(&mut msg, c);
            push_str(&mut msg, "`");
            (Token::Error(msg), p + 1)
        } else {
            (Token::Ident(chars_to_string(src, p, e)), e)
        }
    }
}

/// Every token but the end of input covers at least one character.
pub proof fn lemma_lex_token_advances(s: Seq<char>, p: int)
    requires
        0 <= p < s.len(),
    ensures
        p < lex_token(s, p).1 <= s.len(),
        lex_token(s, p).0 != SpecToken::Eof,
{
    let c = s[p];
    if c == 'f' && char_at(s, p + 1, '"') {
        lemma_find_char_bounds(s, p + 2, '"');
    } else if c == 'f' && char_at(s, p + 1, '“') {
        lemma_find_char_bounds(s, p + 2, '”');
    } else if c == '"' {
        lemma_find_char_bounds(s, p + 1, '"');
    } else if c == '“' {
        lemma_find_char_bounds(s, p + 1, '”');
    } else if is_digit(c) {
        lemma_digits_end_all_digits(s, p);
        lemma_digits_end_all_digits(s, p + 1);
        if digits_end(s, p) + 1 < s.len() {
            lemma_digits_end_all_digits(s, digits_end(s, p) + 1);
        }
    } else if keyword_at(s, p) is Some {
    } else {
        lemma_ident_end_bounds(s, p, p);
    }
}

/// What a lexer's reading is made of: the text, the offset of the next
/// unread character, the span of the last token and the source's name.
pub struct LexView {
    pub chars: Seq<char>,
    pub offset: int,
    pub span: Span,
    pub name: Option<Seq<char>>,
}

/// One read: the token and the lexer afterwards.
pub open spec fn lex_step(v: LexView) -> (SpecToken, LexView) {
    let (t, e) = next_token_at(v.chars, v.offset);
    (t, LexView { offset: e, span: span_after(v.chars, v.offset, v.span), ..v })
}

/// The lexer after `k` reads.
pub open spec fn lex_after(v: LexView, k: nat) -> LexView
    decreases k,
{
    if k == 0 {
        v
    } else {
        lex_step(lex_after(v, (k - 1) as nat)).1
    }
}

/// The token of read number `k`, counting from zero.
pub open spec fn lex_nth(v: LexView, k: nat) -> SpecToken {
    lex_step(lex_after(v, k)).0
}

proof fn lemma_step_bounds(s: Seq<char>, p: int)
    requires
        0 <= p <= s.len(),
    ensures
        p <= next_token_at(s, p).1 <= s.len(),
        !(next_token_at(s, p).0 is Eof) ==> p < next_token_at(s, p).1,
{
    let q = skip_trivia(s, p);
    lemma_skip_trivia_bounds(s, p, false);
    if q < s.len() {
        lemma_lex_token_advances(s, q);
    }
}

proof fn lemma_reads_progress(v: LexView, k: nat)
    requires
        0 <= v.offset <= v.chars.len(),
    ensures
        lex_after(v, k).chars == v.chars,
        lex_after(v, k).name == v.name,
        v.offset <= lex_after(v, k).offset <= v.chars.len(),
        (forall|j: nat| j < k ==> !(#[trigger] lex_nth(v, j) is Eof)) ==> lex_after(v, k).offset >= v.offset + k,
    decreases k,
{
    if k > 0 {
        let k1 = (k - 1) as nat;
        lemma_reads_progress(v, k1);
        lemma_step_bounds(v.chars, lex_after(v, k1).offset);
        if forall|j: nat| j < k ==> !(#[trigger] lex_nth(v, j) is Eof) {
            assert(!(lex_nth(v, k1) is Eof));
        }
    }
}

/// Reading never changes the text or the source's name, however many
/// tokens are read.
pub proof fn lemma_reading_keeps_text(v: LexView, k: nat)
    requires
        0 <= v.offset <= v.chars.len(),
    ensures
        lex_after(v, k).chars == v.chars,
        lex_after(v, k).name == v.name,
{
    lemma_reads_progress(v, k);
}

/// Every token but the end of input consumes text, so reading from offset
/// `p` of a text of `n` characters gives `Eof` within the first `n - p + 1`
/// reads (within `n + 1` from a new lexer).
pub proof fn lemma_reading_reaches_eof(v: LexView)
    requires
        0 <= v.offset <= v.chars.len(),
    ensures
        exists|k: nat| k <= v.chars.len() - v.offset && #[trigger] lex_nth(v, k) is Eof,
{
    let n = (v.chars.len() - v.offset) as nat;
    if !(exists|k: nat| k <= n && #[trigger] lex_nth(v, k) is Eof) {
        lemma_reads_progress(v, n + 1);
        assert forall|j: nat| j < n + 1 implies !(#[trigger] lex_nth(v, j) is Eof) by {
            assert(j <= n);
        }
    }
}

/// Reading depends on the text, the offset and the last span only: two
/// lexers that differ in their names alone read the same tokens with the
/// same spans. `Lexer::new` and `Lexer::new_with_name` on one text give
/// such lexers.
pub proof fn lemma_reading_ignores_name(v: LexView, w: LexView, k: nat)
    requires
        v.chars == w.chars,
        v.offset == w.offset,
        v.span == w.span,
    ensures
        lex_nth(v, k) == lex_nth(w, k),
        lex_after(v, k).offset == lex_after(w, k).offset,
        lex_after(v, k).span == lex_after(w, k).span,
        lex_after(v, k).chars == lex_after(w, k).chars,
    decreases k,
{
    if k > 0 {
        lemma_reading_ignores_name(v, w, (k - 1) as nat);
    }
}

/// Once the lexer has reached the end of input, it stays there and keeps
/// returning `Eof`.
pub proof fn lemma_eof_is_sticky(s: Seq<char>, p: int)
    requires
        0 <= p <= s.len(),
        next_token_at(s, p).0 is Eof,
    ensures
        next_token_at(s, p).1 >= s.len(),
        next_token_at(s, next_token_at(s, p).1) == next_token_at(s, p),
{
    let q = skip_trivia(s, p);
    lemma_skip_trivia_bounds(s, p, false);
    if q < s.len() {
        lemma_lex_token_advances(s, q);
    }
}

/// Operators are read by their spelling. A two-character operator (`<=`,
/// `>=`, `==`, `!=`, `->`, `&&`, `||`) is one token covering both
/// characters, distinct from its first character read alone; without its
/// second character that first character is its own one-character token
/// (a lone `&` or `|` is an error). `+ * / %` are one character each.
pub proof fn lemma_operator_tokens(s: Seq<char>, p: int)
    requires
        0 <= p < s.len(),
    ensures
        s[p] == '<' ==> lex_token(s, p) == if p + 1 < s.len() && s[p + 1] == '=' {
            (SpecToken::LessEq, p + 2)
        } else {
            (SpecToken::Less, p + 1)
        },
        s[p] == '>' ==> lex_token(s, p) == if p + 1 < s.len() && s[p + 1] == '=' {
            (SpecToken::GreaterEq, p + 2)
        } else {
            (SpecToken::Greater, p + 1)
        },
        s[p] == '=' ==> lex_token(s, p) == if p + 1 < s.len() && s[p + 1] == '=' {
            (SpecToken::EqEq, p + 2)
        } else {
            (SpecToken::Equals, p + 1)
        },
        s[p] == '!' ==> lex_token(s, p) == if p + 1 < s.len() && s[p + 1] == '=' {
            (SpecToken::NotEq, p + 2)
        } else {
            (SpecToken::Bang, p + 1)
        },
        s[p] == '-' ==> lex_token(s, p) == if p + 1 < s.len() && s[p + 1] == '>' {
            (SpecToken::Arrow, p + 2)
        } else {
            (SpecToken::Minus, p + 1)
        },
        s[p] == '&' ==> lex_token(s, p) == if p + 1 < s.len() && s[p + 1] == '&' {
            (SpecToken::AndAnd, p + 2)
        } else {
            (SpecToken::Error("无法识别字符 `&`；如果要表达逻辑且，请使用 `&&` 或 `且`"@), p + 1)
        },
        s[p] == '|' ==> lex_token(s, p) == if p + 1 < s.len() && s[p + 1] == '|' {
            (SpecToken::OrOr, p + 2)
        } else {
            (SpecToken::Error("无法识别字符 `|`；如果要表达逻辑或，请使用 `||` 或 `或`"@), p + 1)
        },
        s[p] == '+' ==> lex_token(s, p) == (SpecToken::Plus, p + 1),
        s[p] == '*' ==> lex_token(s, p) == (SpecToken::Star, p + 1),
        s[p] == '/' ==> lex_token(s, p) == (SpecToken::Slash, p + 1),
        s[p] == '%' ==> lex_token(s, p) == (SpecToken::Percent, p + 1),
{
}

/// The keywords of 问源 and the tokens they stand for: two-character
/// keywords, then one-character ones; `字符串` is the string type.
pub proof fn lemma_keyword_table()
    ensures
        keyword2('声', '明') == Some(SpecToken::Declare),
        keyword2('入', '口') == Some(SpecToken::Entry),
        keyword2('外', '部') == Some(SpecToken::External),
        keyword2('定', '义') == Some(SpecToken::Define),
        keyword2('方', '法') == Some(SpecToken::Method),
        keyword2('模', '块') == Some(SpecToken::Module),
        keyword2('结', '构') == Some(SpecToken::StructKw),
        keyword2('对', '象') == Some(SpecToken::ObjectKw),
        keyword2('构', '造') == Some(SpecToken::Construct),
        keyword2('创', '建') == Some(SpecToken::Create),
        keyword2('返', '回') == Some(SpecToken::ReturnKw),
        keyword2('判', '断') == Some(SpecToken::If),
        keyword2('否', '则') == Some(SpecToken::Else),
        keyword2('当', '前') == Some(SpecToken::Current),
        keyword2('取', '值') == Some(SpecToken::TakeValue),
        keyword2('此', '外') == Some(SpecToken::Otherwise),
        keyword2('循', '环') == Some(SpecToken::Loop),
        keyword2('计', '数') == Some(SpecToken::Count),
        keyword2('条', '件') == Some(SpecToken::Condition),
        keyword2('迭', '代') == Some(SpecToken::Iterate),
        keyword2('引', '用') == Some(SpecToken::Import),
        keyword2('执', '行') == Some(SpecToken::Execute),
        keyword2('整', '数') == Some(SpecToken::IntKw),
        keyword2('小', '数') == Some(SpecToken::DoubleKw),
        keyword2('浮', '点') == Some(SpecToken::FloatKw),
        keyword2('布', '尔') == Some(SpecToken::BoolKw),
        keyword2('字', '符') == Some(SpecToken::CharKw),
        keyword2('数', '组') == Some(SpecToken::ArrayKw),
        keyword2('变', '量') == Some(SpecToken::Variable),
        keyword2('可', '变') == Some(SpecToken::Mutable),
        keyword2('整', '型') == Some(SpecToken::IntTypeKw),
        keyword1('无') == Some(SpecToken::VoidKw),
        keyword1('设') == Some(SpecToken::Let),
        keyword1('令') == Some(SpecToken::Let),
        keyword1('为') == Some(SpecToken::AsKw),
        keyword1('若') == Some(SpecToken::ElseIf),
        keyword1('取') == Some(SpecToken::Case),
        keyword1('且') == Some(SpecToken::AndAnd),
        keyword1('或') == Some(SpecToken::OrOr),
{
}

/// A keyword at a CJK character is read as that keyword and covers exactly
/// its characters: `字符串` (three), a two-character keyword (two), else a
/// one-character keyword (one).
pub proof fn lemma_keyword_reading(s: Seq<char>, p: int)
    requires
        0 <= p < s.len(),
        is_cjk(s[p]),
    ensures
        p + 2 < s.len() && s[p] == '字' && s[p + 1] == '符' && s[p + 2] == '串' ==> lex_token(s, p) == (SpecToken::StringKw, p + 3),
        !(p + 2 < s.len() && s[p] == '字' && s[p + 1] == '符' && s[p + 2] == '串') && p + 1 < s.len() && is_cjk(s[p + 1])
            && keyword2(s[p], s[p + 1]) is Some ==> lex_token(s, p) == (keyword2(s[p], s[p + 1])->0, p + 2),
        !(p + 2 < s.len() && s[p] == '字' && s[p + 1] == '符' && s[p + 2] == '串') && !(p + 1 < s.len() && is_cjk(s[p + 1])
            && keyword2(s[p], s[p + 1]) is Some) && keyword1(s[p]) is Some ==> lex_token(s, p) == (keyword1(s[p])->0, p + 1),
{
    if keyword_at(s, p) is Some {
        lemma_keyword_lookahead_agrees(s, p);
    }
}

/// Punctuation is one character each, ASCII or full-width alike: `(（`
/// open and `)）` close parentheses, `[【` and `]】` brackets, `:：` a
/// colon, `,，` a comma, `#` and `@` their own tokens, and `.` or `。`,
/// doubled or not, end a scope.
pub proof fn lemma_punctuation_tokens(s: Seq<char>, p: int)
    requires
        0 <= p < s.len(),
    ensures
        s[p] == '(' || s[p] == '（' ==> lex_token(s, p) == (SpecToken::LParen, p + 1),
        s[p] == ')' || s[p] == '）' ==> lex_token(s, p) == (SpecToken::RParen, p + 1),
        s[p] == '[' || s[p] == '【' ==> lex_token(s, p) == (SpecToken::LBracket, p + 1),
        s[p] == ']' || s[p] == '】' ==> lex_token(s, p) == (SpecToken::RBracket, p + 1),
        s[p] == ':' || s[p] == '：' ==> lex_token(s, p) == (SpecToken::Colon, p + 1),
        s[p] == ',' || s[p] == '，' ==> lex_token(s, p) == (SpecToken::Comma, p + 1),
        s[p] == '#' ==> lex_token(s, p) == (SpecToken::Hash, p + 1),
        s[p] == '@' ==> lex_token(s, p) == (SpecToken::At, p + 1),
        s[p] == '.' ==> lex_token(s, p) == if p + 1 < s.len() && s[p + 1] == '.' {
            (SpecToken::ScopeEnd, p + 2)
        } else {
            (SpecToken::ScopeEnd, p + 1)
        },
        s[p] == '。' ==> lex_token(s, p) == if p + 1 < s.len() && s[p + 1] == '。' {
            (SpecToken::ScopeEnd, p + 2)
        } else {
            (SpecToken::ScopeEnd, p + 1)
        },
{
}

/// The full-width punctuation of Chinese text is read as its ASCII
/// counterpart: `（）【】：，` as `()[]:,`.
pub proof fn lemma_full_width_punctuation(s: Seq<char>, p: int, wide: char, ascii: char)
    requires
        0 <= p < s.len(),
        (wide == '（' && ascii == '(') || (wide == '）' && ascii == ')') || (wide == '【' && ascii == '[')
            || (wide == '】' && ascii == ']') || (wide == '：' && ascii == ':') || (wide == '，' && ascii == ','),
    ensures
        lex_token(s.update(p, wide), p) == lex_token(s.update(p, ascii), p),
{
}

/// `。。` ends a scope as `..` does, and so does a single `。` or `.`.
pub proof fn lemma_full_width_scope_end(s: Seq<char>, p: int)
    requires
        0 <= p < s.len(),
    ensures
        lex_token(s.update(p, '。'), p).0 == SpecToken::ScopeEnd,
        lex_token(s.update(p, '.'), p).0 == SpecToken::ScopeEnd,
        p + 1 < s.len() ==> lex_token(s.update(p, '。').update(p + 1, '。'), p) == lex_token(
            s.update(p, '.').update(p + 1, '.'),
            p,
        ),
{
}

pub proof fn lemma_find_char_bounds(s: Seq<char>, p: int, c: char)
    requires
        0 <= p <= s.len(),
    ensures
        p <= find_char(s, p, c) <= s.len(),
    decreases s.len() - p,
{
    if p < s.len() && s[p] != c {
        lemma_find_char_bounds(s, p + 1, c);
    }
}

proof fn lemma_ident_end_bounds(s: Seq<char>, start: int, q: int)
    requires
        0 <= q <= s.len(),
    ensures
        q <= ident_end(s, start, q) <= s.len(),
    decreases s.len() - q,
{
    if q < s.len() {
        lemma_ident_end_bounds(s, start, q + 1);
    }
}

pub proof fn lemma_skip_trivia_bounds(s: Seq<char>, p: int, in_comment: bool)
    requires
        0 <= p <= s.len(),
    ensures
        p <= skip_trivia_from(s, p, in_comment) <= s.len(),
    decreases s.len() - p,
{
    if p < s.len() {
        lemma_skip_trivia_bounds(s, p + 1, false);
        lemma_skip_trivia_bounds(s, p + 1, true);
    }
}

/// The lexer: a cursor over the characters of one source text.
pub struct Lexer {
    source_text: String,
    source_name: Option<String>,
    source: Vec<char>,
    pos: usize,
    last_span: Span,
}

impl Lexer {
    #[verifier::type_invariant]
    spec fn inv(self) -> bool {
        &&& self.source@ == self.source_text@
        &&& self.pos <= self.source@.len()
    }

    /// The characters being read.
    pub closed spec fn chars(&self) -> Seq<char> {
        self.source@
    }

    /// The offset of the next unread character.
    pub closed spec fn offset(&self) -> int {
        self.pos as int
    }

    /// The span of the most recently read token.
    pub closed spec fn span(&self) -> Span {
        self.last_span
    }

    /// The lexer as its reading sees it.
    pub open spec fn state(&self) -> LexView {
        LexView { chars: self.chars(), offset: self.offset(), span: self.span(), name: self.name() }
    }

    /// The name given to the source, if any.
    pub closed spec fn name(&self) -> Option<Seq<char>> {
        match self.source_name {
            Some(n) => Some(n@),
            None => None,
        }
    }

    /// A lexer at the start of `source`.
    pub fn new(source: &str) -> (lexer: Self)
        ensures
            lexer.chars() == source@,
            lexer.offset() == 0,
            lexer.chars().len() >= 0,
            lexer.span() == (Span { start: 0, end: 0 }),
            lexer.name() is None,
    {
        Lexer {
            source_text: owned(source),
            source_name: None,
            source: str_chars(source),
            pos: 0,
            last_span: Span { start: 0, end: 0 },
        }
    }

    /// A lexer at the start of `source`, which diagnostics call `source_name`.
    pub fn new_with_name(source: &str, source_name: String) -> (lexer: Self)
        ensures
            lexer.chars() == source@,
            lexer.offset() == 0,
            lexer.chars().len() >= 0,
            lexer.span() == (Span { start: 0, end: 0 }),
            lexer.name() == Some(source_name@),
    {
        Lexer {
            source_text: owned(source),
            source_name: Some(source_name),
            source: str_chars(source),
            pos: 0,
            last_span: Span { start: 0, end: 0 },
        }
    }

    pub fn source_text(&self) -> (r: &str)
        ensures
            r@ == self.chars(),
    {
        proof {
            use_type_invariant(self);
        }
        self.source_text.as_str()
    }

    pub fn source_name(&self) -> (r: Option<&str>)
        ensures
            match r {
                Some(n) => self.name() == Some(n@),
                None => self.name() is None,
            },
    {
        match &self.source_name {
            Some(n) => Some(n.as_str()),
            None => None,
        }
    }

    /// The characters being read.
    pub fn source_chars(&self) -> (r: &Vec<char>)
        ensures
            r@ == self.chars(),
    {
        &self.source
    }

    pub fn last_span(&self) -> (r: Span)
        ensures
            r == self.span(),
    {
        self.last_span
    }

    /// Reads the next token. At the end of input it keeps returning `Eof`.
    pub fn next_token(&mut self) -> (t: Token)
        ensures
            (t@, final(self).offset()) == next_token_at(old(self).chars(), old(self).offset()),
            final(self).span() == span_after(old(self).chars(), old(self).offset(), old(self).span()),
            final(self).chars() == old(self).chars(),
            final(self).name() == old(self).name(),
            0 <= final(self).offset() <= final(self).chars().len(),
            old(self).offset() <= final(self).offset(),
            !(t@ is Eof) ==> old(self).offset() < final(self).offset(),
            (t@, final(self).state()) == lex_step(old(self).state()),
    {
        proof {
            use_type_invariant(&*self);
            lemma_skip_trivia_bounds(self.source@, self.pos as int, false);
        }
        let start = skip_trivia_exec(&self.source, self.pos);
        if start >= self.source.len() {
            self.pos = start;
            self.last_span = Span { start, end: start };
            return Token::Eof;
        }
        proof {
            lemma_lex_token_advances(self.source@, start as int);
        }
        let (t, end) = lex_token_exec(&self.source, start);
        self.pos = end;
        if !is_ascii_digit(self.source[start]) {
            self.last_span = Span { start, end };
        }
        t
    }
}

/// Whether two tokens are the same token.
pub fn token_eq(a: &Token, b: &Token) -> (r: bool)
    ensures
        r == (a@ == b@),
{
    match (a, b) {
        (Token::At, Token::At) => true,
        (Token::Declare, Token::Declare) => true,
        (Token::Entry, Token::Entry) => true,
        (Token::External, Token::External) => true,
        (Token::Define, Token::Define) => true,
        (Token::Method, Token::Method) => true,
        (Token::Module, Token::Module) => true,
        (Token::StructKw, Token::StructKw) => true,
        (Token::ObjectKw, Token::ObjectKw) => true,
        (Token::Construct, Token::Construct) => true,
        (Token::Create, Token::Create) => true,
        (Token::ReturnKw, Token::ReturnKw) => true,
        (Token::If, Token::If) => true,
        (Token::ElseIf, Token::ElseIf) => true,
        (Token::Else, Token::Else) => true,
        (Token::Current, Token::Current) => true,
        (Token::Case, Token::Case) => true,
        (Token::Otherwise, Token::Otherwise) => true,
        (Token::TakeValue, Token::TakeValue) => true,
        (Token::Loop, Token::Loop) => true,
        (Token::Count, Token::Count) => true,
        (Token::Condition, Token::Condition) => true,
        (Token::Iterate, Token::Iterate) => true,
        (Token::VoidKw, Token::VoidKw) => true,
        (Token::IntKw, Token::IntKw) => true,
        (Token::DoubleKw, Token::DoubleKw) => true,
        (Token::FloatKw, Token::FloatKw) => true,
        (Token::BoolKw, Token::BoolKw) => true,
        (Token::CharKw, Token::CharKw) => true,
        (Token::StringKw, Token::StringKw) => true,
        (Token::ArrayKw, Token::ArrayKw) => true,
        (Token::IntTypeKw, Token::IntTypeKw) => true,
        (Token::Variable, Token::Variable) => true,
        (Token::Mutable, Token::Mutable) => true,
        (Token::Let, Token::Let) => true,
        (Token::Hash, Token::Hash) => true,
        (Token::Import, Token::Import) => true,
        (Token::AsKw, Token::AsKw) => true,
        (Token::Execute, Token::Execute) => true,
        (Token::LParen, Token::LParen) => true,
        (Token::RParen, Token::RParen) => true,
        (Token::LBracket, Token::LBracket) => true,
        (Token::RBracket, Token::RBracket) => true,
        (Token::Colon, Token::Colon) => true,
        (Token::ScopeEnd, Token::ScopeEnd) => true,
        (Token::Comma, Token::Comma) => true,
        (Token::Equals, Token::Equals) => true,
        (Token::Plus, Token::Plus) => true,
        (Token::Minus, Token::Minus) => true,
        (Token::Star, Token::Star) => true,
        (Token::Slash, Token::Slash) => true,
        (Token::Percent, Token::Percent) => true,
        (Token::EqEq, Token::EqEq) => true,
        (Token::NotEq, Token::NotEq) => true,
        (Token::Less, Token::Less) => true,
        (Token::LessEq, Token::LessEq) => true,
        (Token::Greater, Token::Greater) => true,
        (Token::GreaterEq, Token::GreaterEq) => true,
        (Token::AndAnd, Token::AndAnd) => true,
        (Token::OrOr, Token::OrOr) => true,
        (Token::Bang, Token::Bang) => true,
        (Token::Arrow, Token::Arrow) => true,
        (Token::Ident(x), Token::Ident(y)) => same(x, y),
        (Token::IntLiteral(x), Token::IntLiteral(y)) => *x == *y,
        (Token::DoubleLiteral(x), Token::DoubleLiteral(y)) => same(x, y),
        (Token::StringLiteral(x), Token::StringLiteral(y)) => same(x, y),
        (Token::FormattedStringLiteral(x), Token::FormattedStringLiteral(y)) => same(x, y),
        (Token::Error(x), Token::Error(y)) => same(x, y),
        (Token::Eof, Token::Eof) => true,
        _ => false,
    }
}

} // verus!
