//! The tokenizer: characters in, tokens out, one token of lookahead.
//!
//! What is not a token is handed, as text, to a policy that the caller
//! supplies; the policy answers with an `InvalidTokenFix`. The tokenizer
//! works with every policy. What it delivers is stated against a function
//! `answers` from texts to answers, for the inputs on which the contract of
//! the policy leaves it no other answer than that of `answers` (`settled`):
//! those are all inputs where the contract says the same as `answers` for
//! every text, and under any policy the inputs without invalid tokens.

use vstd::prelude::*;
use vstd::string::StrSliceExecFns;
use vstd::string::StringExecFns;
use crate::number::Number;
use crate::text::characters;
use crate::text::check_digit;
use crate::text::is_digit;
use crate::text::push_char;

verus! {

/// Whether a character beyond ASCII has the Unicode property `White_Space`.
pub uninterp spec fn unicode_whitespace(c: char) -> bool;

/// Whether a character beyond ASCII has the Unicode property `Alphabetic`.
pub uninterp spec fn unicode_alphabetic(c: char) -> bool;

/// Whether a character beyond ASCII is alphabetic or numeric in Unicode.
pub uninterp spec fn unicode_alphanumeric(c: char) -> bool;

/// Calls `char::is_whitespace`, which depends on the character alone.
#[verifier::external_body]
fn char_is_whitespace(c: char) -> (b: bool)
    ensures
        b == unicode_whitespace(c),
{
    c.is_whitespace()
}

/// Calls `char::is_alphabetic`, which depends on the character alone.
#[verifier::external_body]
fn char_is_alphabetic(c: char) -> (b: bool)
    ensures
        b == unicode_alphabetic(c),
{
    c.is_alphabetic()
}

/// Calls `char::is_alphanumeric`, which depends on the character alone.
#[verifier::external_body]
fn char_is_alphanumeric(c: char) -> (b: bool)
    ensures
        b == unicode_alphanumeric(c),
{
    c.is_alphanumeric()
}

/// Whether a character is in the ASCII range.
pub open spec fn is_ascii_char(c: char) -> bool {
    c <= '\u{7f}'
}

/// White space: in ASCII the space and the characters from tab to carriage
/// return, beyond ASCII what Unicode calls white space.
pub open spec fn is_space(c: char) -> bool {
    if is_ascii_char(c) {
        c == ' ' || ('\t' <= c && c <= '\r')
    } else {
        unicode_whitespace(c)
    }
}

/// A letter: in ASCII `a` to `z` and `A` to `Z`, beyond ASCII what Unicode
/// calls alphabetic.
pub open spec fn is_letter(c: char) -> bool {
    if is_ascii_char(c) {
        ('a' <= c && c <= 'z') || ('A' <= c && c <= 'Z')
    } else {
        unicode_alphabetic(c)
    }
}

/// A character that continues an identifier: `_`, an ASCII letter or digit, or
/// beyond ASCII what Unicode calls alphabetic or numeric.
pub open spec fn is_name_char(c: char) -> bool {
    if is_ascii_char(c) {
        c == '_' || is_letter(c) || is_digit(c)
    } else {
        unicode_alphanumeric(c)
    }
}

/// A character that continues a numeric literal: a digit, `.` or `e`.
pub open spec fn is_number_char(c: char) -> bool {
    is_digit(c) || c == '.' || c == 'e'
}

/// Tells white space from other characters.
pub fn check_space(c: char) -> (b: bool)
    ensures
        b == is_space(c),
{
    if c <= '\u{7f}' {
        c == ' ' || ('\t' <= c && c <= '\r')
    } else {
        char_is_whitespace(c)
    }
}

/// Tells letters from other characters.
pub fn check_letter(c: char) -> (b: bool)
    ensures
        b == is_letter(c),
{
    if c <= '\u{7f}' {
        ('a' <= c && c <= 'z') || ('A' <= c && c <= 'Z')
    } else {
        char_is_alphabetic(c)
    }
}

/// Tells the characters that continue an identifier from the others.
pub fn check_name_char(c: char) -> (b: bool)
    ensures
        b == is_name_char(c),
{
    if c <= '\u{7f}' {
        c == '_' || check_letter(c) || check_digit(c)
    } else {
        char_is_alphanumeric(c)
    }
}

/// Tells the characters that continue a numeric literal from the others.
pub fn check_number_char(c: char) -> (b: bool)
    ensures
        b == is_number_char(c),
{
    check_digit(c) || c == '.' || c == 'e'
}

/// A token.
#[derive(Debug, PartialEq)]
pub enum Token {
    Number(Number),
    Identifier(String),
    OpenParen,
    CloseParen,
    Plus,
    Minus,
    Mul,
    Div,
    Power,
    Exp,
    Ln,
    Sin,
    Cos,
    Tan,
    Cotan,
}

/// A token as a mathematical value: an identifier is its sequence of
/// characters.
pub enum Lexeme {
    Number(Number),
    Identifier(Seq<char>),
    OpenParen,
    CloseParen,
    Plus,
    Minus,
    Mul,
    Div,
    Power,
    Exp,
    Ln,
    Sin,
    Cos,
    Tan,
    Cotan,
}

impl View for Token {
    type V = Lexeme;

    open spec fn view(&self) -> Lexeme {
        match self {
            Token::Number(n) => Lexeme::Number(*n),
            Token::Identifier(name) => Lexeme::Identifier(name@),
            Token::OpenParen => Lexeme::OpenParen,
            Token::CloseParen => Lexeme::CloseParen,
            Token::Plus => Lexeme::Plus,
            Token::Minus => Lexeme::Minus,
            Token::Mul => Lexeme::Mul,
            Token::Div => Lexeme::Div,
            Token::Power => Lexeme::Power,
            Token::Exp => Lexeme::Exp,
            Token::Ln => Lexeme::Ln,
            Token::Sin => Lexeme::Sin,
            Token::Cos => Lexeme::Cos,
            Token::Tan => Lexeme::Tan,
            Token::Cotan => Lexeme::Cotan,
        }
    }
}

impl Clone for Token {
    fn clone(&self) -> (r: Token)
        ensures
            r@ == self@,
    {
        match self {
            Token::Number(n) => Token::Number(*n),
            Token::Identifier(name) => Token::Identifier(name.clone()),
            Token::OpenParen => Token::OpenParen,
            Token::CloseParen => Token::CloseParen,
            Token::Plus => Token::Plus,
            Token::Minus => Token::Minus,
            Token::Mul => Token::Mul,
            Token::Div => Token::Div,
            Token::Power => Token::Power,
            Token::Exp => Token::Exp,
            Token::Ln => Token::Ln,
            Token::Sin => Token::Sin,
            Token::Cos => Token::Cos,
            Token::Tan => Token::Tan,
            Token::Cotan => Token::Cotan,
        }
    }
}

impl Token {
    /// The token as it is written.
    pub fn to_str(&self) -> (r: String)
        ensures
            r@ == self@.text(),
    {
        match self {
            Token::Number(n) => n.text(),
            Token::Identifier(name) => name.clone(),
            Token::OpenParen => String::from_str("("),
            Token::CloseParen => String::from_str(")"),
            Token::Plus => String::from_str("+"),
            Token::Minus => String::from_str("-"),
            Token::Mul => String::from_str("*"),
            Token::Div => String::from_str("/"),
            Token::Power => String::from_str("^"),
            Token::Exp => String::from_str("exp"),
            Token::Ln => String::from_str("ln"),
            Token::Sin => String::from_str("sin"),
            Token::Cos => String::from_str("cos"),
            Token::Tan => String::from_str("tg"),
            Token::Cotan => String::from_str("ctg"),
        }
    }

    /// Whether two tokens are equal: the same kind, the same name, and
    /// numbers equal as floating-point values.
    pub fn same(&self, other: &Token) -> (b: bool)
        ensures
            b == same_lexeme(self@, other@),
    {
        match (self, other) {
            (Token::Number(x), Token::Number(y)) => *x == *y,
            (Token::Identifier(a), Token::Identifier(b)) => *a == *b,
            (Token::OpenParen, Token::OpenParen) => true,
            (Token::CloseParen, Token::CloseParen) => true,
            (Token::Plus, Token::Plus) => true,
            (Token::Minus, Token::Minus) => true,
            (Token::Mul, Token::Mul) => true,
            (Token::Div, Token::Div) => true,
            (Token::Power, Token::Power) => true,
            (Token::Exp, Token::Exp) => true,
            (Token::Ln, Token::Ln) => true,
            (Token::Sin, Token::Sin) => true,
            (Token::Cos, Token::Cos) => true,
            (Token::Tan, Token::Tan) => true,
            (Token::Cotan, Token::Cotan) => true,
            _ => false,
        }
    }
}

impl Lexeme {
    /// The token as it is written: a number as its decimal text, a name as
    /// it stands, an operator or a built-in function as its symbol or name.
    pub open spec fn text(self) -> Seq<char> {
        match self {
            Lexeme::Number(n) => n.text_spec(),
            Lexeme::Identifier(name) => name,
            Lexeme::OpenParen => "("@,
            Lexeme::CloseParen => ")"@,
            Lexeme::Plus => "+"@,
            Lexeme::Minus => "-"@,
            Lexeme::Mul => "*"@,
            Lexeme::Div => "/"@,
            Lexeme::Power => "^"@,
            Lexeme::Exp => "exp"@,
            Lexeme::Ln => "ln"@,
            Lexeme::Sin => "sin"@,
            Lexeme::Cos => "cos"@,
            Lexeme::Tan => "tg"@,
            Lexeme::Cotan => "ctg"@,
        }
    }
}

/// The tokens of a sequence, as mathematical values.
pub open spec fn lexemes(tokens: Seq<Token>) -> Seq<Lexeme> {
    tokens.map_values(|token: Token| token@)
}

/// Whether two tokens are equal: the same kind, the same name, and numbers
/// equal as floating-point values.
pub open spec fn same_lexeme(a: Lexeme, b: Lexeme) -> bool {
    match (a, b) {
        (Lexeme::Number(x), Lexeme::Number(y)) => x.same_value(y),
        _ => a == b,
    }
}

/// What to do about a piece of text that is not a token.
#[derive(Debug, PartialEq)]
pub enum InvalidTokenFix {
    /// Drop the text and go on with what follows it.
    Ignore,
    /// Take this token in place of the text.
    Substitute(Token),
    /// Give up: the tokenizer delivers nothing more.
    Fail,
}

/// An `InvalidTokenFix` as a mathematical value.
pub enum Fix {
    Ignore,
    Substitute(Lexeme),
    Fail,
}

impl View for InvalidTokenFix {
    type V = Fix;

    open spec fn view(&self) -> Fix {
        match self {
            InvalidTokenFix::Ignore => Fix::Ignore,
            InvalidTokenFix::Substitute(token) => Fix::Substitute(token@),
            InvalidTokenFix::Fail => Fix::Fail,
        }
    }
}

/// The classes of characters that the tokenizer reads in runs.
#[derive(Clone, Copy, Debug, PartialEq)]
pub enum CharClass {
    /// White space.
    Space,
    /// Digits, `.` and `e`.
    NumberChar,
    /// Letters, digits and `_`.
    NameChar,
}

impl CharClass {
    /// Whether the character belongs to the class.
    pub open spec fn holds(self, c: char) -> bool {
        match self {
            CharClass::Space => is_space(c),
            CharClass::NumberChar => is_number_char(c),
            CharClass::NameChar => is_name_char(c),
        }
    }

    /// Whether the character belongs to the class.
    pub fn check(self, c: char) -> (b: bool)
        ensures
            b == self.holds(c),
    {
        match self {
            CharClass::Space => check_space(c),
            CharClass::NumberChar => check_number_char(c),
            CharClass::NameChar => check_name_char(c),
        }
    }
}

/// Where the longest run of characters of one class that starts at `pos`
/// ends: the position of the first character outside the class, or the end of
/// the input.
pub open spec fn run_end(input: Seq<char>, pos: int, class: CharClass) -> int
    decreases input.len() - pos,
{
    if 0 <= pos < input.len() && class.holds(input[pos]) {
        run_end(input, pos + 1, class)
    } else {
        pos
    }
}

/// The lower-case form of an ASCII capital; any other character unchanged.
pub open spec fn lower(c: char) -> char {
    if 'A' <= c && c <= 'Z' {
        ((c as u8) + 32) as char
    } else {
        c
    }
}

/// A text with its ASCII capitals in lower case.
pub open spec fn lowered(text: Seq<char>) -> Seq<char> {
    text.map_values(|c: char| lower(c))
}

/// The token that a name stands for: a built-in function where the name is,
/// whatever the case of its letters, one of `exp`, `ln`, `sin`, `cos`, `tg`
/// and `ctg`; an identifier otherwise.
pub open spec fn word(name: Seq<char>) -> Lexeme {
    let folded = lowered(name);
    if folded == "exp"@ {
        Lexeme::Exp
    } else if folded == "ln"@ {
        Lexeme::Ln
    } else if folded == "sin"@ {
        Lexeme::Sin
    } else if folded == "cos"@ {
        Lexeme::Cos
    } else if folded == "tg"@ {
        Lexeme::Tan
    } else if folded == "ctg"@ {
        Lexeme::Cotan
    } else {
        Lexeme::Identifier(name)
    }
}

/// What one attempt to read a token finds.
pub enum Found {
    /// A token.
    Token(Lexeme),
    /// A piece of text that is not a token.
    Invalid(Seq<char>),
    /// The end of the input.
    End,
}

/// What one attempt to read a token finds, and where the next attempt starts.
pub struct Scan {
    pub found: Found,
    pub next: int,
}

/// The reading of a numeric literal: `prefix` followed by the run of digits,
/// `.` and `e` that starts at `start`. The text is a number token where it is
/// the text of a number, and not a token where it is not.
pub open spec fn number_at(input: Seq<char>, start: int, prefix: Seq<char>) -> Scan {
    let end = run_end(input, start, CharClass::NumberChar);
    let text = prefix + input.subrange(start, end);
    Scan {
        found: match Number::parse_spec(text) {
            Some(n) => Found::Token(Lexeme::Number(n)),
            None => Found::Invalid(text),
        },
        next: end,
    }
}

/// One attempt to read a token from position `pos` on. White space is
/// skipped first. `-` with a digit after it, white space between them or not,
/// is the sign of a numeric literal.
pub open spec fn scan_at(input: Seq<char>, pos: int) -> Scan {
    let p = run_end(input, pos, CharClass::Space);
    if !(0 <= p < input.len()) {
        Scan { found: Found::End, next: p }
    } else {
        let c = input[p];
        if c == '(' {
            Scan { found: Found::Token(Lexeme::OpenParen), next: p + 1 }
        } else if c == ')' {
            Scan { found: Found::Token(Lexeme::CloseParen), next: p + 1 }
        } else if c == '+' {
            Scan { found: Found::Token(Lexeme::Plus), next: p + 1 }
        } else if c == '-' {
            let q = run_end(input, p + 1, CharClass::Space);
            if q < input.len() && is_digit(input[q]) {
                number_at(input, q, seq!['-'])
            } else {
                Scan { found: Found::Token(Lexeme::Minus), next: q }
            }
        } else if c == '*' {
            Scan { found: Found::Token(Lexeme::Mul), next: p + 1 }
        } else if c == '/' {
            Scan { found: Found::Token(Lexeme::Div), next: p + 1 }
        } else if c == '^' {
            Scan { found: Found::Token(Lexeme::Power), next: p + 1 }
        } else if is_digit(c) {
            number_at(input, p + 1, seq![c])
        } else if is_letter(c) || c == '_' {
            let end = run_end(input, p + 1, CharClass::NameChar);
            Scan { found: Found::Token(word(seq![c] + input.subrange(p + 1, end))), next: end }
        } else {
            Scan { found: Found::Invalid(seq![c]), next: p + 1 }
        }
    }
}

/// A run ends at or after its start and within the input.
pub proof fn lemma_run_end_bounds(input: Seq<char>, pos: int, class: CharClass)
    requires
        0 <= pos <= input.len(),
    ensures
        pos <= run_end(input, pos, class) <= input.len(),
        forall|i: int| pos <= i < run_end(input, pos, class) ==> class.holds(#[trigger] input[i]),
        run_end(input, pos, class) < input.len() ==> !class.holds(
            input[run_end(input, pos, class)],
        ),
    decreases input.len() - pos,
{
    if pos < input.len() && class.holds(input[pos]) {
        lemma_run_end_bounds(input, pos + 1, class);
    }
}

/// An attempt that does not find the end of the input moves on by at least
/// one character, and no attempt moves beyond the end of the input.
pub proof fn lemma_scan_advances(input: Seq<char>, pos: int)
    requires
        0 <= pos <= input.len(),
    ensures
        pos <= scan_at(input, pos).next <= input.len(),
        !(scan_at(input, pos).found is End) ==> pos < scan_at(input, pos).next,
{
    lemma_run_end_bounds(input, pos, CharClass::Space);
    let p = run_end(input, pos, CharClass::Space);
    if p < input.len() {
        lemma_run_end_bounds(input, p + 1, CharClass::Space);
        let q = run_end(input, p + 1, CharClass::Space);
        lemma_run_end_bounds(input, q, CharClass::NumberChar);
        lemma_run_end_bounds(input, p + 1, CharClass::NumberChar);
        lemma_run_end_bounds(input, p + 1, CharClass::NameChar);
    }
}

/// What one attempt to read a token finds.
#[derive(Debug, PartialEq)]
pub enum Scanned {
    /// A token.
    Token(Token),
    /// A piece of text that is not a token.
    Invalid(String),
    /// The end of the input.
    End,
}

impl View for Scanned {
    type V = Found;

    open spec fn view(&self) -> Found {
        match self {
            Scanned::Token(token) => Found::Token(token@),
            Scanned::Invalid(text) => Found::Invalid(text@),
            Scanned::End => Found::End,
        }
    }
}

/// What follows from the answer of a policy to a piece of invalid text.
#[derive(Debug, PartialEq)]
pub enum Outcome {
    /// The text is dropped; reading goes on behind it.
    Retry,
    /// This token is delivered in place of the text.
    Deliver(Token),
    /// Nothing more is delivered.
    Stop,
}

/// Whether a policy takes every text.
pub open spec fn accepts_every_text<P: Fn(String) -> InvalidTokenFix>(policy: P) -> bool {
    forall|s: String| #[trigger] call_requires(policy, (s,))
}

/// Whether the contract of a policy leaves it, for a piece of text, no other
/// answer than that of `answers`.
pub open spec fn decides<P: Fn(String) -> InvalidTokenFix>(
    policy: P,
    answers: spec_fn(Seq<char>) -> Fix,
    text: Seq<char>,
) -> bool {
    forall|s: String, f: InvalidTokenFix|
        s@ == text && #[trigger] call_ensures(policy, (s,), f) ==> f@ == answers(text)
}

/// Whether a policy answers every text as `answers` does.
pub open spec fn obeys<P: Fn(String) -> InvalidTokenFix>(
    policy: P,
    answers: spec_fn(Seq<char>) -> Fix,
) -> bool {
    forall|text: Seq<char>| #[trigger] decides(policy, answers, text)
}

/// The function that answers every text alike.
pub open spec fn always(fix: Fix) -> spec_fn(Seq<char>) -> Fix {
    |text: Seq<char>| fix
}

/// The tokens that are read from position `pos` on, where invalid text is
/// answered as `answers` says: the text is dropped, replaced by a token, or
/// ends the tokens.
pub open spec fn tokens_from(
    input: Seq<char>,
    pos: int,
    answers: spec_fn(Seq<char>) -> Fix,
) -> Seq<Lexeme>
    decreases input.len() - pos,
{
    if !(0 <= pos <= input.len()) {
        Seq::empty()
    } else {
        let scan = scan_at(input, pos);
        proof {
            lemma_scan_advances(input, pos);
        }
        match scan.found {
            Found::End => Seq::empty(),
            Found::Token(token) => seq![token] + tokens_from(input, scan.next, answers),
            Found::Invalid(text) => match answers(text) {
                Fix::Ignore => tokens_from(input, scan.next, answers),
                Fix::Substitute(token) => seq![token] + tokens_from(input, scan.next, answers),
                Fix::Fail => Seq::empty(),
            },
        }
    }
}

/// The tokens of a text, where invalid text is answered as `answers` says.
pub open spec fn tokens_of(input: Seq<char>, answers: spec_fn(Seq<char>) -> Fix) -> Seq<Lexeme> {
    tokens_from(input, 0, answers)
}

/// Where reading one token from position `pos` on ends: behind the token,
/// behind the invalid text that is replaced by a token or that the answer
/// `Fail` is given to, or at the end of the input. Invalid text that is
/// dropped is read over.
pub open spec fn token_end(
    input: Seq<char>,
    pos: int,
    answers: spec_fn(Seq<char>) -> Fix,
) -> int
    decreases input.len() - pos,
{
    if !(0 <= pos <= input.len()) {
        pos
    } else {
        let scan = scan_at(input, pos);
        proof {
            lemma_scan_advances(input, pos);
        }
        match scan.found {
            Found::Invalid(text) if answers(text) is Ignore => token_end(
                input,
                scan.next,
                answers,
            ),
            _ => scan.next,
        }
    }
}

/// Whether reading one token from position `pos` on ends with the answer
/// `Fail`.
pub open spec fn token_fails(
    input: Seq<char>,
    pos: int,
    answers: spec_fn(Seq<char>) -> Fix,
) -> bool
    decreases input.len() - pos,
{
    if !(0 <= pos <= input.len()) {
        false
    } else {
        let scan = scan_at(input, pos);
        proof {
            lemma_scan_advances(input, pos);
        }
        match scan.found {
            Found::Invalid(text) => match answers(text) {
                Fix::Ignore => token_fails(input, scan.next, answers),
                Fix::Substitute(_) => false,
                Fix::Fail => true,
            },
            _ => false,
        }
    }
}

/// Whether the policy answers as `answers` does to every invalid text that
/// is met when the tokens are read from position `pos` on. Where it does, the
/// tokens are `tokens_from(input, pos, answers)`. An input without invalid
/// text is settled under every policy, for every `answers`.
pub open spec fn settled_from<P: Fn(String) -> InvalidTokenFix>(
    input: Seq<char>,
    pos: int,
    policy: P,
    answers: spec_fn(Seq<char>) -> Fix,
) -> bool
    decreases input.len() - pos,
{
    if !(0 <= pos <= input.len()) {
        true
    } else {
        let scan = scan_at(input, pos);
        proof {
            lemma_scan_advances(input, pos);
        }
        match scan.found {
            Found::End => true,
            Found::Token(_) => settled_from(input, scan.next, policy, answers),
            Found::Invalid(text) => decides(policy, answers, text) && (answers(text) is Fail
                || settled_from(input, scan.next, policy, answers)),
        }
    }
}

/// Whether the policy answers as `answers` does to every invalid text that
/// is met when the tokens of a text are read.
pub open spec fn settled<P: Fn(String) -> InvalidTokenFix>(
    input: Seq<char>,
    policy: P,
    answers: spec_fn(Seq<char>) -> Fix,
) -> bool {
    settled_from(input, 0, policy, answers)
}

/// The lower-case form of an ASCII capital; any other character unchanged.
pub fn to_lower(c: char) -> (r: char)
    ensures
        r == lower(c),
{
    if 'A' <= c && c <= 'Z' {
        ((c as u8) + 32) as char
    } else {
        c
    }
}

/// A text with its ASCII capitals in lower case.
pub fn fold_case(text: &str) -> (r: String)
    ensures
        r@ == lowered(text@),
{
    let mut r = String::new();
    for c in it: text.chars()
        invariant
            r@ == lowered(it.seq().take(it.index() as int)),
            it.seq() == text@,
    {
        proof {
            let done = it.seq().take(it.index() as int);
            assert(it.seq().take(it.index() + 1) == done.push(c));
            assert(lowered(done.push(c)) == lowered(done).push(lower(c)));
        }
        push_char(&mut r, to_lower(c));
    }
    r
}

/// The token that a name stands for.
pub fn word_token(name: String) -> (token: Token)
    ensures
        token@ == word(name@),
{
    let folded = fold_case(name.as_str());
    if folded == String::from_str("exp") {
        Token::Exp
    } else if folded == String::from_str("ln") {
        Token::Ln
    } else if folded == String::from_str("sin") {
        Token::Sin
    } else if folded == String::from_str("cos") {
        Token::Cos
    } else if folded == String::from_str("tg") {
        Token::Tan
    } else if folded == String::from_str("ctg") {
        Token::Cotan
    } else {
        Token::Identifier(name)
    }
}

/// The tokenizer: holds the characters not yet read and at most one token
/// that was read and not yet taken.
pub struct Tokenizer<P> {
    input: Vec<char>,
    position: usize,
    token: Option<Token>,
    failed: bool,
    policy: P,
}

impl<P: Fn(String) -> InvalidTokenFix> Tokenizer<P> {
    /// The invariant: the position lies within the input, the policy takes
    /// every text, and a tokenizer that has failed holds no token.
    pub closed spec fn wf(&self) -> bool {
        &&& self.position <= self.input.len()
        &&& accepts_every_text(self.policy)
        &&& self.failed ==> self.token is None
    }

    /// A bound on the number of tokens that can still be delivered: the
    /// characters not yet read, and one for a pending token.
    pub closed spec fn unread(&self) -> nat {
        (self.input.len() - self.position + if self.token is Some {
            1int
        } else {
            0int
        }) as nat
    }

    /// Whether the policy answers as `answers` does to every invalid text
    /// that is still to be met.
    pub open spec fn settled(&self, answers: spec_fn(Seq<char>) -> Fix) -> bool {
        self.failed() || settled_from(self.input(), self.position(), self.policy(), answers)
    }

    /// The characters that the tokenizer was made for.
    pub closed spec fn input(&self) -> Seq<char> {
        self.input@
    }

    /// The policy that the tokenizer was made with.
    pub closed spec fn policy(&self) -> P {
        self.policy
    }

    /// Where the next attempt to read a token starts.
    pub closed spec fn position(&self) -> int {
        self.position as int
    }

    /// The token that was read and not yet taken, if there is one.
    pub closed spec fn pending(&self) -> Option<Lexeme> {
        match self.token {
            Some(token) => Some(token@),
            None => None,
        }
    }

    /// Whether the policy has answered `Fail`.
    pub closed spec fn failed(&self) -> bool {
        self.failed
    }

    /// Whether this tokenizer is `old` after it has read one token from the
    /// characters, if `old` had none pending and had not failed, and `old`
    /// as it was otherwise: it has read no further than to the end of that
    /// token, and it has failed if it had, or if the answer was `Fail`.
    pub open spec fn has_read(
        &self,
        old: &Tokenizer<P>,
        answers: spec_fn(Seq<char>) -> Fix,
    ) -> bool {
        if old.pending() is Some || old.failed() {
            self.position() == old.position() && self.failed() == old.failed()
        } else {
            &&& self.position() == token_end(old.input(), old.position(), answers)
            &&& self.failed() == token_fails(old.input(), old.position(), answers)
        }
    }

    /// The tokens still to be read from the characters, where invalid text
    /// is answered as `answers` says: none once the tokenizer has failed.
    pub open spec fn upcoming(&self, answers: spec_fn(Seq<char>) -> Fix) -> Seq<Lexeme> {
        if self.failed() {
            Seq::empty()
        } else {
            tokens_from(self.input(), self.position(), answers)
        }
    }

    /// The tokens still to be delivered: the pending one, then the upcoming.
    pub open spec fn remaining(&self, answers: spec_fn(Seq<char>) -> Fix) -> Seq<Lexeme> {
        match self.pending() {
            Some(token) => seq![token] + self.upcoming(answers),
            None => self.upcoming(answers),
        }
    }

    /// Creates a tokenizer for a text, with the policy to consult about
    /// invalid tokens.
    pub fn new(input: &str, policy: P) -> (tokenizer: Tokenizer<P>)
        requires
            accepts_every_text(policy),
        ensures
            tokenizer.wf(),
            tokenizer.input() == input@,
            tokenizer.policy() == policy,
            tokenizer.position() == 0,
            tokenizer.pending() is None,
            !tokenizer.failed(),
            tokenizer.unread() == input@.len(),
            forall|answers: spec_fn(Seq<char>) -> Fix|
                #![trigger settled(input@, policy, answers)]
                #![trigger tokenizer.settled(answers)]
                #![trigger tokenizer.remaining(answers)]
                tokenizer.settled(answers) == settled(input@, policy, answers)
                    && tokenizer.remaining(answers) == tokens_of(input@, answers),
    {
        Tokenizer { input: characters(input), position: 0, token: None, failed: false, policy }
    }

    /// The next character, which stays where it is.
    fn peek_char(&self) -> (c: Option<char>)
        requires
            self.wf(),
        ensures
            c == if self.position() < self.input().len() {
                Some(self.input()[self.position()])
            } else {
                None
            },
    {
        if self.position < self.input.len() {
            Some(self.input[self.position])
        } else {
            None
        }
    }

    /// The next character, which is consumed.
    fn take_char(&mut self) -> (c: Option<char>)
        requires
            old(self).wf(),
        ensures
            final(self).wf(),
            final(self).input() == old(self).input(),
            final(self).policy() == old(self).policy(),
            final(self).pending() == old(self).pending(),
            final(self).failed() == old(self).failed(),
            c == if old(self).position() < old(self).input().len() {
                Some(old(self).input()[old(self).position()])
            } else {
                None
            },
            final(self).position() == if c is Some {
                old(self).position() + 1
            } else {
                old(self).position()
            },
    {
        if self.position < self.input.len() {
            let c = self.input[self.position];
            self.position = self.position + 1;
            Some(c)
        } else {
            None
        }
    }

    /// Consumes the run of characters of one class that starts at the current
    /// position, and appends it to `text`.
    fn read_run(&mut self, class: CharClass, text: &mut String)
        requires
            old(self).wf(),
        ensures
            final(self).wf(),
            final(self).input() == old(self).input(),
            final(self).policy() == old(self).policy(),
            final(self).pending() == old(self).pending(),
            final(self).failed() == old(self).failed(),
            final(self).position() == run_end(old(self).input(), old(self).position(), class),
            final(text)@ == old(text)@ + old(self).input().subrange(
                old(self).position(),
                final(self).position(),
            ),
    {
        let ghost start = self.position();
        let ghost before = text@;
        loop
            invariant
                self.wf(),
                self.input() == old(self).input(),
                self.policy() == old(self).policy(),
                self.pending() == old(self).pending(),
                self.failed() == old(self).failed(),
                start == old(self).position(),
                start <= self.position(),
                run_end(self.input(), self.position(), class) == run_end(
                    self.input(),
                    start,
                    class,
                ),
                text@ == before + self.input().subrange(start, self.position()),
            ensures
                self.position() == run_end(self.input(), start, class),
            decreases self.input().len() - self.position(),
        {
            match self.peek_char() {
                Some(c) => {
                    if class.check(c) {
                        self.take_char();
                        push_char(text, c);
                        assert(self.input().subrange(start, self.position())
                            == self.input().subrange(start, self.position() - 1).push(c));
                    } else {
                        break ;
                    }
                },
                None => {
                    break ;
                },
            }
        }
    }

    /// Consumes the white space at the current position.
    fn skip_spaces(&mut self)
        requires
            old(self).wf(),
        ensures
            final(self).wf(),
            final(self).input() == old(self).input(),
            final(self).policy() == old(self).policy(),
            final(self).pending() == old(self).pending(),
            final(self).failed() == old(self).failed(),
            final(self).position() == run_end(
                old(self).input(),
                old(self).position(),
                CharClass::Space,
            ),
    {
        let mut skipped = String::new();
        self.read_run(CharClass::Space, &mut skipped);
    }

    /// Reads a numeric literal whose first character, a digit or the sign,
    /// has been consumed: the digits, `.` and `e` that follow belong to it.
    fn read_number(&mut self, first: char) -> (r: Scanned)
        requires
            old(self).wf(),
        ensures
            final(self).wf(),
            final(self).input() == old(self).input(),
            final(self).policy() == old(self).policy(),
            final(self).pending() == old(self).pending(),
            final(self).failed() == old(self).failed(),
            r@ == number_at(old(self).input(), old(self).position(), seq![first]).found,
            final(self).position() == number_at(
                old(self).input(),
                old(self).position(),
                seq![first],
            ).next,
    {
        let mut text = String::new();
        push_char(&mut text, first);
        assert(text@ == seq![first]);
        self.read_run(CharClass::NumberChar, &mut text);
        match Number::parse(text.as_str()) {
            Some(n) => Scanned::Token(Token::Number(n)),
            None => Scanned::Invalid(text),
        }
    }

    /// Reads a name whose first character has been consumed: the letters,
    /// digits and `_` that follow belong to it.
    fn read_id(&mut self, first: char) -> (token: Token)
        requires
            old(self).wf(),
        ensures
            final(self).wf(),
            final(self).input() == old(self).input(),
            final(self).policy() == old(self).policy(),
            final(self).pending() == old(self).pending(),
            final(self).failed() == old(self).failed(),
            final(self).position() == run_end(
                old(self).input(),
                old(self).position(),
                CharClass::NameChar,
            ),
            token@ == word(
                seq![first] + old(self).input().subrange(
                    old(self).position(),
                    final(self).position(),
                ),
            ),
    {
        let mut name = String::new();
        push_char(&mut name, first);
        assert(name@ == seq![first]);
        self.read_run(CharClass::NameChar, &mut name);
        word_token(name)
    }

    /// One attempt to read a token, without recourse to the policy.
    pub fn scan(&mut self) -> (r: Scanned)
        requires
            old(self).wf(),
        ensures
            final(self).wf(),
            final(self).input() == old(self).input(),
            final(self).policy() == old(self).policy(),
            final(self).pending() == old(self).pending(),
            final(self).failed() == old(self).failed(),
            r@ == scan_at(old(self).input(), old(self).position()).found,
            final(self).position() == scan_at(old(self).input(), old(self).position()).next,
    {
        self.skip_spaces();
        proof {
            lemma_run_end_bounds(old(self).input(), old(self).position(), CharClass::Space);
        }
        match self.take_char() {
            Some(c) => {
                if c == '(' {
                    Scanned::Token(Token::OpenParen)
                } else if c == ')' {
                    Scanned::Token(Token::CloseParen)
                } else if c == '+' {
                    Scanned::Token(Token::Plus)
                } else if c == '-' {
                    self.skip_spaces();
                    let digit_follows = match self.peek_char() {
                        Some(d) => check_digit(d),
                        None => false,
                    };
                    if digit_follows {
                        self.read_number('-')
                    } else {
                        Scanned::Token(Token::Minus)
                    }
                } else if c == '*' {
                    Scanned::Token(Token::Mul)
                } else if c == '/' {
                    Scanned::Token(Token::Div)
                } else if c == '^' {
                    Scanned::Token(Token::Power)
                } else if check_digit(c) {
                    self.read_number(c)
                } else if check_letter(c) || c == '_' {
                    Scanned::Token(self.read_id(c))
                } else {
                    let mut text = String::new();
                    push_char(&mut text, c);
                    assert(text@ == seq![c]);
                    Scanned::Invalid(text)
                }
            },
            None => Scanned::End,
        }
    }

    /// Acts on the answer of the policy to a piece of invalid text: `Ignore`
    /// asks for another attempt, `Substitute` delivers its token, and `Fail`
    /// marks the tokenizer as failed.
    pub fn resolve(&mut self, fix: InvalidTokenFix) -> (outcome: Outcome)
        requires
            old(self).wf(),
            old(self).pending() is None,
        ensures
            final(self).wf(),
            final(self).input() == old(self).input(),
            final(self).policy() == old(self).policy(),
            final(self).position() == old(self).position(),
            final(self).pending() is None,
            final(self).failed() == (old(self).failed() || fix@ is Fail),
            match fix@ {
                Fix::Ignore => outcome is Retry,
                Fix::Substitute(token) => outcome matches Outcome::Deliver(t) && t@ == token,
                Fix::Fail => outcome is Stop,
            },
    {
        match fix {
            InvalidTokenFix::Ignore => Outcome::Retry,
            InvalidTokenFix::Substitute(token) => Outcome::Deliver(token),
            InvalidTokenFix::Fail => {
                self.failed = true;
                Outcome::Stop
            },
        }
    }

    /// Hands a piece of invalid text to the policy and acts on its answer,
    /// whatever it is.
    fn handle_invalid_token(&mut self, text: String) -> (outcome: Outcome)
        requires
            old(self).wf(),
            old(self).pending() is None,
        ensures
            final(self).wf(),
            final(self).input() == old(self).input(),
            final(self).policy() == old(self).policy(),
            final(self).position() == old(self).position(),
            final(self).pending() is None,
            final(self).failed() == (old(self).failed() || outcome is Stop),
            forall|answers: spec_fn(Seq<char>) -> Fix| #[trigger]
                decides(old(self).policy(), answers, text@) ==> match answers(text@) {
                    Fix::Ignore => outcome is Retry,
                    Fix::Substitute(token) => outcome matches Outcome::Deliver(t) && t@ == token,
                    Fix::Fail => outcome is Stop,
                },
    {
        let fix = (self.policy)(text);
        self.resolve(fix)
    }

    /// Reads the next token from the characters: `None` at the end of the
    /// input and once the tokenizer has failed.
    fn read_token(&mut self) -> (r: Option<Token>)
        requires
            old(self).wf(),
            old(self).pending() is None,
        ensures
            final(self).wf(),
            final(self).input() == old(self).input(),
            final(self).policy() == old(self).policy(),
            final(self).pending() is None,
            old(self).position() <= final(self).position(),
            r is Some ==> old(self).position() < final(self).position(),
            r is Some ==> !final(self).failed(),
            forall|answers: spec_fn(Seq<char>) -> Fix| #[trigger]
                old(self).settled(answers) ==> {
                    &&& final(self).settled(answers)
                    &&& final(self).has_read(old(self), answers)
                    &&& match r {
                        Some(token) => old(self).upcoming(answers) == seq![token@] + final(self)
                            .upcoming(answers),
                        None => old(self).upcoming(answers).len() == 0 && final(self).upcoming(
                            answers,
                        ).len() == 0,
                    }
                },
    {
        if self.failed {
            return None;
        }
        loop
            invariant
                self.wf(),
                self.input() == old(self).input(),
                self.policy() == old(self).policy(),
                self.pending() is None,
                !self.failed(),
                !old(self).failed(),
                old(self).pending() is None,
                old(self).position() <= self.position(),
                forall|answers: spec_fn(Seq<char>) -> Fix| #[trigger]
                    old(self).settled(answers) ==> {
                        &&& self.settled(answers)
                        &&& self.upcoming(answers) == old(self).upcoming(answers)
                        &&& token_end(self.input(), self.position(), answers) == token_end(
                            self.input(),
                            old(self).position(),
                            answers,
                        )
                        &&& token_fails(self.input(), self.position(), answers) == token_fails(
                            self.input(),
                            old(self).position(),
                            answers,
                        )
                    },
            decreases self.input().len() - self.position(),
        {
            let ghost before = self.position();
            proof {
                lemma_scan_advances(self.input(), before);
            }
            match self.scan() {
                Scanned::Token(token) => {
                    return Some(token);
                },
                Scanned::End => {
                    proof {
                        lemma_scan_advances(self.input(), self.position());
                    }
                    return None;
                },
                Scanned::Invalid(text) => {
                    match self.handle_invalid_token(text) {
                        Outcome::Retry => {},
                        Outcome::Deliver(token) => {
                            return Some(token);
                        },
                        Outcome::Stop => {
                            return None;
                        },
                    }
                },
            }
        }
    }

    /// Returns the next token and consumes it; `None` when none is left.
    /// Where the policy answers as `answers` does, the token is the first of
    /// `remaining(answers)`.
    pub fn take(&mut self) -> (r: Option<Token>)
        requires
            old(self).wf(),
        ensures
            final(self).wf(),
            final(self).input() == old(self).input(),
            final(self).policy() == old(self).policy(),
            final(self).pending() is None,
            final(self).unread() <= old(self).unread(),
            r is Some ==> final(self).unread() < old(self).unread(),
            old(self).pending() is Some ==> r is Some,
            forall|answers: spec_fn(Seq<char>) -> Fix| #[trigger]
                old(self).settled(answers) ==> {
                    &&& final(self).settled(answers)
                    &&& final(self).has_read(old(self), answers)
                    &&& match r {
                        Some(token) => {
                            &&& old(self).remaining(answers).len() > 0
                            &&& token@ == old(self).remaining(answers)[0]
                            &&& final(self).remaining(answers) == old(self).remaining(
                                answers,
                            ).drop_first()
                        },
                        None => old(self).remaining(answers).len() == 0 && final(self).remaining(
                            answers,
                        ).len() == 0,
                    }
                },
    {
        if self.token.is_none() {
            self.token = self.read_token();
        }
        let r = self.token.take();
        proof {
            assert forall|answers: spec_fn(Seq<char>) -> Fix| #[trigger]
                old(self).settled(answers) && r is Some implies self.remaining(answers) == old(self)
                .remaining(answers).drop_first() by {
                let head = r->Some_0@;
                let rest = self.remaining(answers);
                assert(old(self).remaining(answers) == seq![head] + rest);
                assert((seq![head] + rest).drop_first() == rest);
            }
        }
        r
    }

    /// Returns the next token without consuming it; `None` when none is left.
    pub fn peek(&mut self) -> (r: Option<Token>)
        requires
            old(self).wf(),
        ensures
            final(self).wf(),
            final(self).input() == old(self).input(),
            final(self).policy() == old(self).policy(),
            final(self).unread() <= old(self).unread(),
            (r is Some) == (final(self).pending() is Some),
            forall|answers: spec_fn(Seq<char>) -> Fix| #[trigger]
                old(self).settled(answers) ==> {
                    &&& final(self).settled(answers)
                    &&& final(self).has_read(old(self), answers)
                    &&& final(self).remaining(answers) == old(self).remaining(answers)
                    &&& match r {
                        Some(token) => final(self).remaining(answers).len() > 0 && token@
                            == final(self).remaining(answers)[0],
                        None => final(self).remaining(answers).len() == 0,
                    }
                },
    {
        if self.token.is_none() {
            self.token = self.read_token();
        }
        match &self.token {
            Some(token) => Some(token.clone()),
            None => None,
        }
    }

    /// Whether no token is left: the end of the input has been reached, or
    /// the tokenizer has failed.
    pub fn eof(&mut self) -> (b: bool)
        requires
            old(self).wf(),
        ensures
            final(self).wf(),
            final(self).input() == old(self).input(),
            final(self).policy() == old(self).policy(),
            final(self).unread() <= old(self).unread(),
            b == (final(self).pending() is None),
            forall|answers: spec_fn(Seq<char>) -> Fix| #[trigger]
                old(self).settled(answers) ==> {
                    &&& final(self).settled(answers)
                    &&& final(self).has_read(old(self), answers)
                    &&& final(self).remaining(answers) == old(self).remaining(answers)
                    &&& b == (final(self).remaining(answers).len() == 0)
                },
    {
        self.failed || self.peek().is_none()
    }
}

/// All the tokens of a text, in order, under a policy.
pub fn tokenize<P: Fn(String) -> InvalidTokenFix>(input: &str, policy: P) -> (tokens: Vec<Token>)
    requires
        accepts_every_text(policy),
    ensures
        forall|answers: spec_fn(Seq<char>) -> Fix| #[trigger]
            settled(input@, policy, answers) ==> lexemes(tokens@) == tokens_of(input@, answers),
{
    let mut tokenizer = Tokenizer::new(input, policy);
    let mut tokens: Vec<Token> = Vec::new();
    loop
        invariant
            tokenizer.wf(),
            forall|answers: spec_fn(Seq<char>) -> Fix| #[trigger]
                settled(input@, policy, answers) ==> tokenizer.settled(answers) && lexemes(
                    tokens@,
                ) + tokenizer.remaining(answers) == tokens_of(input@, answers),
        ensures
            forall|answers: spec_fn(Seq<char>) -> Fix| #[trigger]
                settled(input@, policy, answers) ==> lexemes(tokens@) == tokens_of(
                    input@,
                    answers,
                ),
        decreases tokenizer.unread(),
    {
        let ghost before = tokenizer;
        let ghost taken = tokens@;
        match tokenizer.take() {
            Some(token) => {
                tokens.push(token);
                proof {
                    assert forall|answers: spec_fn(Seq<char>) -> Fix| #[trigger]
                        settled(input@, policy, answers) implies tokenizer.settled(answers)
                        && lexemes(tokens@) + tokenizer.remaining(answers) == tokens_of(
                        input@,
                        answers,
                    ) by {
                        assert(before.settled(answers));
                        assert(lexemes(tokens@) == lexemes(taken).push(token@));
                        assert(lexemes(taken).push(token@) + before.remaining(
                            answers,
                        ).drop_first() == lexemes(taken) + before.remaining(answers));
                    }
                }
            },
            None => {
                proof {
                    assert forall|answers: spec_fn(Seq<char>) -> Fix| #[trigger]
                        settled(input@, policy, answers) implies lexemes(tokens@) == tokens_of(
                        input@,
                        answers,
                    ) by {
                        assert(before.settled(answers));
                        assert(lexemes(tokens@) + tokenizer.remaining(answers) == lexemes(
                            tokens@,
                        ));
                    }
                }
                break ;
            },
        }
    }
    tokens
}

/// The policy that drops every invalid text.
pub fn ignore_invalid(text: String) -> (fix: InvalidTokenFix)
    ensures
        fix@ == Fix::Ignore,
{
    InvalidTokenFix::Ignore
}

/// The policy that fails on the first invalid text.
pub fn fail_on_invalid(text: String) -> (fix: InvalidTokenFix)
    ensures
        fix@ == Fix::Fail,
{
    InvalidTokenFix::Fail
}

/// `ignore_invalid` takes every text and answers each with `Ignore`.
pub proof fn lemma_ignore_invalid()
    ensures
        accepts_every_text(ignore_invalid),
        obeys(ignore_invalid, always(Fix::Ignore)),
{
    assert forall|text: Seq<char>| #[trigger]
        decides(ignore_invalid, always(Fix::Ignore), text) by {
    }
}

/// `fail_on_invalid` takes every text and answers each with `Fail`.
pub proof fn lemma_fail_on_invalid()
    ensures
        accepts_every_text(fail_on_invalid),
        obeys(fail_on_invalid, always(Fix::Fail)),
{
    assert forall|text: Seq<char>| #[trigger]
        decides(fail_on_invalid, always(Fix::Fail), text) by {
    }
}

/// Under a policy that answers every text as `answers` does, every input is
/// settled.
pub proof fn lemma_obeyed_settles<P: Fn(String) -> InvalidTokenFix>(
    input: Seq<char>,
    pos: int,
    policy: P,
    answers: spec_fn(Seq<char>) -> Fix,
)
    requires
        obeys(policy, answers),
    ensures
        settled_from(input, pos, policy, answers),
    decreases input.len() - pos,
{
    if 0 <= pos <= input.len() {
        lemma_scan_advances(input, pos);
        let scan = scan_at(input, pos);
        match scan.found {
            Found::End => {},
            Found::Token(_) => {
                lemma_obeyed_settles(input, scan.next, policy, answers);
            },
            Found::Invalid(text) => {
                assert(decides(policy, answers, text));
                lemma_obeyed_settles(input, scan.next, policy, answers);
            },
        }
    }
}

/// Under the policy that drops invalid text, the tokens are those that the
/// attempts find: an attempt that finds invalid text adds none.
pub proof fn lemma_ignored_text_is_elided(input: Seq<char>, pos: int)
    requires
        0 <= pos <= input.len(),
    ensures
        tokens_from(input, pos, always(Fix::Ignore)) == match scan_at(input, pos).found {
            Found::End => Seq::<Lexeme>::empty(),
            Found::Token(token) => seq![token] + tokens_from(
                input,
                scan_at(input, pos).next,
                always(Fix::Ignore),
            ),
            Found::Invalid(_) => tokens_from(input, scan_at(input, pos).next, always(Fix::Ignore)),
        },
{
}

} // verus!
