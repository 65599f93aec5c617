//! The lexer: a pull-based producer of tokens over a buffer of characters.
//!
//! What one call of `Lexer::next` does is stated by `lex_next`, a function
//! of the text and of the cursor alone.
use crate::diagnostics::{lemma_position_bounds, lemma_rows_monotone, position_at, Position};
use crate::syntax::{KindView, Token, TokenKind};
use std::num::ParseIntError;
use vstd::prelude::*;

verus! {

/// The error of `str::parse` for integers, carried through unopened.
#[verifier::external_type_specification]
#[verifier::external_body]
pub struct ExParseIntError(std::num::ParseIntError);

/// Whether `c` has Unicode's White_Space property.
pub uninterp spec fn white_space(c: char) -> bool;

/// Whether `c` has Unicode's Alphabetic property.
pub uninterp spec fn alphabetic(c: char) -> bool;

/// Relies on `char::is_whitespace`: whether `c` has the White_Space
/// property, which depends on `c` alone.
#[verifier::external_body]
fn is_whitespace(c: char) -> (r: bool)
    ensures
        r == white_space(c),
{
    c.is_whitespace()
}

/// Relies on `char::is_alphabetic`: whether `c` has the Alphabetic
/// property, which depends on `c` alone.
#[verifier::external_body]
fn is_alphabetic(c: char) -> (r: bool)
    ensures
        r == alphabetic(c),
{
    c.is_alphabetic()
}

/// Relies on `String::push`: appends `c` to the end of `s`.
#[verifier::external_body]
fn push_char(s: &mut String, c: char)
    ensures
        final(s)@ == old(s)@.push(c),
{
    s.push(c)
}

/// Relies on `str::parse::<usize>`: a nonempty run of ASCII digits is read
/// as its decimal value, and the parse fails exactly when that value does
/// not fit in `usize`.
#[verifier::external_body]
fn parse_usize(s: &str) -> (r: Result<usize, ParseIntError>)
    requires
        s@.len() > 0,
        forall|i: int| 0 <= i < s@.len() ==> is_digit(#[trigger] s@[i]),
    ensures
        r is Ok <==> decimal(s@) <= usize::MAX,
        r is Ok ==> r->Ok_0 == decimal(s@),
{
    s.parse::<usize>()
}

pub open spec fn is_digit(c: char) -> bool {
    '0' <= c && c <= '9'
}

pub open spec fn digit_value(c: char) -> nat {
    (c as u32 - '0' as u32) as nat
}

/// The value of a run of decimal digits.
pub open spec fn decimal(s: Seq<char>) -> nat
    decreases s.len(),
{
    if s.len() == 0 {
        0
    } else {
        decimal(s.drop_last()) * 10 + digit_value(s.last())
    }
}

pub open spec fn starts_word(c: char) -> bool {
    alphabetic(c) || c == '_'
}

pub open spec fn continues_word(c: char) -> bool {
    alphabetic(c) || c == '_' || is_digit(c)
}

/// The characters that a backslash may escape inside a quoted literal.
pub open spec fn escapable(c: char) -> bool {
    c == '"' || c == '\\' || c == '\''
}

pub open spec fn space_class() -> spec_fn(char) -> bool {
    |c: char| white_space(c)
}

pub open spec fn digit_class() -> spec_fn(char) -> bool {
    |c: char| is_digit(c)
}

pub open spec fn word_class() -> spec_fn(char) -> bool {
    |c: char| continues_word(c)
}

/// The first index at or after `i` whose character is not in `class`, or
/// the length of `s` if there is none.
pub open spec fn run_end(s: Seq<char>, i: int, class: spec_fn(char) -> bool) -> int
    decreases s.len() - i,
{
    if 0 <= i < s.len() && class(s[i]) {
        run_end(s, i + 1, class)
    } else {
        i
    }
}

/// The reserved spellings and the kinds they stand for.
pub open spec fn keyword_of(w: Seq<char>) -> Option<TokenKind> {
    if w =~= "fn"@ {
        Some(TokenKind::Fn)
    } else if w =~= "let"@ {
        Some(TokenKind::Let)
    } else if w =~= "ret"@ {
        Some(TokenKind::Ret)
    } else if w =~= "if"@ {
        Some(TokenKind::If)
    } else if w =~= "elif"@ {
        Some(TokenKind::Elif)
    } else if w =~= "else"@ {
        Some(TokenKind::Else)
    } else if w =~= "b8"@ {
        Some(TokenKind::B8)
    } else if w =~= "b16"@ {
        Some(TokenKind::B16)
    } else if w =~= "b32"@ {
        Some(TokenKind::B32)
    } else if w =~= "b64"@ {
        Some(TokenKind::B64)
    } else if w =~= "b128"@ {
        Some(TokenKind::B128)
    } else if w =~= "i8"@ {
        Some(TokenKind::I8)
    } else if w =~= "i16"@ {
        Some(TokenKind::I16)
    } else if w =~= "i32"@ {
        Some(TokenKind::I32)
    } else if w =~= "i64"@ {
        Some(TokenKind::I64)
    } else if w =~= "i128"@ {
        Some(TokenKind::I128)
    } else if w =~= "f16"@ {
        Some(TokenKind::F16)
    } else if w =~= "f32"@ {
        Some(TokenKind::F32)
    } else if w =~= "f64"@ {
        Some(TokenKind::F64)
    } else if w =~= "f128"@ {
        Some(TokenKind::F128)
    } else {
        None
    }
}

/// Whether the two strings hold the same characters.
fn same_text(a: &str, b: &str) -> (r: bool)
    ensures
        r == (a@ =~= b@),
{
    let n = a.unicode_len();
    if n != b.unicode_len() {
        return false;
    }
    let mut i: usize = 0;
    while i < n
        invariant
            n == a@.len(),
            n == b@.len(),
            i <= n,
            forall|j: int| 0 <= j < i ==> a@[j] == b@[j],
        decreases n - i,
    {
        if a.get_char(i) != b.get_char(i) {
            return false;
        }
        i = i + 1;
    }
    true
}

/// Looks `word` up in the keyword table.
pub fn lookup_keyword(word: &str) -> (r: Option<TokenKind>)
    ensures
        r == keyword_of(word@),
{
    if same_text(word, "fn") {
        Some(TokenKind::Fn)
    } else if same_text(word, "let") {
        Some(TokenKind::Let)
    } else if same_text(word, "ret") {
        Some(TokenKind::Ret)
    } else if same_text(word, "if") {
        Some(TokenKind::If)
    } else if same_text(word, "elif") {
        Some(TokenKind::Elif)
    } else if same_text(word, "else") {
        Some(TokenKind::Else)
    } else if same_text(word, "b8") {
        Some(TokenKind::B8)
    } else if same_text(word, "b16") {
        Some(TokenKind::B16)
    } else if same_text(word, "b32") {
        Some(TokenKind::B32)
    } else if same_text(word, "b64") {
        Some(TokenKind::B64)
    } else if same_text(word, "b128") {
        Some(TokenKind::B128)
    } else if same_text(word, "i8") {
        Some(TokenKind::I8)
    } else if same_text(word, "i16") {
        Some(TokenKind::I16)
    } else if same_text(word, "i32") {
        Some(TokenKind::I32)
    } else if same_text(word, "i64") {
        Some(TokenKind::I64)
    } else if same_text(word, "i128") {
        Some(TokenKind::I128)
    } else if same_text(word, "f16") {
        Some(TokenKind::F16)
    } else if same_text(word, "f32") {
        Some(TokenKind::F32)
    } else if same_text(word, "f64") {
        Some(TokenKind::F64)
    } else if same_text(word, "f128") {
        Some(TokenKind::F128)
    } else {
        None
    }
}

#[derive(Debug)]
pub enum LexingError {
    UnknownToken,
    NumberParsing(ParseIntError),
    IncompleteString(Vec<char>),
    IncompleteCharacter,
    UnknownEscapeCharacter(char),
}

/// The content of a lexing error that the contracts speak of.
pub enum ErrorView {
    UnknownToken,
    NumberParsing,
    IncompleteString(Seq<char>),
    IncompleteCharacter,
    UnknownEscapeCharacter(char),
}

impl View for LexingError {
    type V = ErrorView;

    open spec fn view(&self) -> ErrorView {
        match self {
            LexingError::UnknownToken => ErrorView::UnknownToken,
            LexingError::NumberParsing(_) => ErrorView::NumberParsing,
            LexingError::IncompleteString(v) => ErrorView::IncompleteString(v@),
            LexingError::IncompleteCharacter => ErrorView::IncompleteCharacter,
            LexingError::UnknownEscapeCharacter(c) => ErrorView::UnknownEscapeCharacter(*c),
        }
    }
}

/// What one request for a token yields.
pub enum Lexed {
    End,
    Token(KindView),
    Error(ErrorView),
}

pub open spec fn outcome(r: Option<Result<Token, LexingError>>) -> Lexed {
    match r {
        None => Lexed::End,
        Some(Ok(t)) => Lexed::Token(t.kind@),
        Some(Err(e)) => Lexed::Error(e@),
    }
}

pub open spec fn quoted_view(r: Option<Result<(bool, char), LexingError>>) -> Option<
    Result<(bool, char), ErrorView>,
> {
    match r {
        None => None,
        Some(Ok(p)) => Some(Ok(p)),
        Some(Err(e)) => Some(Err(e@)),
    }
}

/// One character of a quoted literal at index `p`, without consuming it:
/// whether it was escaped, and the character; `None` at the end of the
/// input. A backslash is consumed, so the cursor afterwards is returned too.
pub open spec fn scan_quoted(s: Seq<char>, p: int) -> (Option<Result<(bool, char), ErrorView>>, int) {
    if p >= s.len() {
        (None, p)
    } else if s[p] == '\\' {
        if p + 1 >= s.len() {
            (None, p + 1)
        } else if escapable(s[p + 1]) {
            (Some(Ok((true, s[p + 1]))), p + 1)
        } else {
            (Some(Err(ErrorView::UnknownEscapeCharacter(s[p + 1]))), p + 1)
        }
    } else {
        (Some(Ok((false, s[p]))), p)
    }
}

/// The rest of a string literal from index `p`, with `acc` already read.
pub open spec fn scan_string(s: Seq<char>, p: int, acc: Seq<char>) -> (Lexed, int)
    decreases s.len() - p,
{
    let (q, after) = scan_quoted(s, p);
    match q {
        None => (Lexed::Error(ErrorView::IncompleteString(acc)), after),
        Some(Err(e)) => (Lexed::Error(e), after),
        Some(Ok((escaped, c))) => {
            if c == '"' && !escaped {
                (Lexed::Token(KindView::String(acc)), after + 1)
            } else if after < s.len() {
                scan_string(s, after + 1, acc.push(c))
            } else {
                // not reached: a character was read, so `after` lies inside `s`
                (Lexed::End, after)
            }
        },
    }
}

/// The rest of a character literal from index `p`.
pub open spec fn scan_character(s: Seq<char>, p: int) -> (Lexed, int) {
    let (q, after) = scan_quoted(s, p);
    match q {
        None => (Lexed::Error(ErrorView::IncompleteCharacter), after),
        Some(Err(e)) => (Lexed::Error(e), after),
        Some(Ok((_, c))) => {
            let n = after + 1;
            if n >= s.len() {
                (Lexed::Error(ErrorView::IncompleteCharacter), n)
            } else if s[n] != '\'' {
                (Lexed::Error(ErrorView::IncompleteCharacter), n + 1)
            } else {
                (Lexed::Token(KindView::Other(TokenKind::Character(c))), n + 1)
            }
        },
    }
}

/// The short form `short`, or `long` when the next character is `second`.
pub open spec fn pair(s: Seq<char>, k: int, second: char, long: TokenKind, short: TokenKind) -> (
    Lexed,
    int,
) {
    if k < s.len() && s[k] == second {
        (Lexed::Token(KindView::Other(long)), k + 1)
    } else {
        (Lexed::Token(KindView::Other(short)), k)
    }
}

/// The lexeme that starts with the character at index `j`, and the cursor
/// after it.
pub open spec fn lex_lexeme(s: Seq<char>, j: int) -> (Lexed, int) {
    let c = s[j];
    let k = j + 1;
    if c == '@' {
        (Lexed::Token(KindView::Other(TokenKind::CommercialAt)), k)
    } else if c == ':' {
        (Lexed::Token(KindView::Other(TokenKind::Colon)), k)
    } else if c == ';' {
        (Lexed::Token(KindView::Other(TokenKind::Semicolon)), k)
    } else if c == '=' {
        if k < s.len() && s[k] == '>' {
            (Lexed::Token(KindView::Other(TokenKind::RightwardsDoubleArrow)), k + 1)
        } else {
            pair(s, k, '=', TokenKind::DoubleEqualsSign, TokenKind::EqualsSign)
        }
    } else if c == '+' {
        pair(s, k, '+', TokenKind::DoublePlusSign, TokenKind::PlusSign)
    } else if c == '-' {
        if k < s.len() && s[k] == '>' {
            (Lexed::Token(KindView::Other(TokenKind::RightwardsArrow)), k + 1)
        } else {
            pair(s, k, '-', TokenKind::DoubleMinusSign, TokenKind::MinusSign)
        }
    } else if c == '|' {
        pair(s, k, '|', TokenKind::DoubleVerticalLine, TokenKind::VerticalLine)
    } else if c == '(' {
        (Lexed::Token(KindView::Other(TokenKind::LeftParenthesis)), k)
    } else if c == ')' {
        (Lexed::Token(KindView::Other(TokenKind::RightParenthesis)), k)
    } else if c == '"' {
        scan_string(s, k, Seq::empty())
    } else if c == '\'' {
        scan_character(s, k)
    } else if is_digit(c) {
        let e = run_end(s, k, digit_class());
        let v = decimal(s.subrange(j, e));
        if v <= usize::MAX {
            (Lexed::Token(KindView::Other(TokenKind::Number(v as usize))), e)
        } else {
            (Lexed::Error(ErrorView::NumberParsing), e)
        }
    } else if starts_word(c) {
        let e = run_end(s, k, word_class());
        let w = s.subrange(j, e);
        match keyword_of(w) {
            Some(kw) => (Lexed::Token(KindView::Other(kw)), e),
            None => (Lexed::Token(KindView::Identifier(w)), e),
        }
    } else {
        (Lexed::Error(ErrorView::UnknownToken), k)
    }
}

/// The index of the first character of the next lexeme at or after `i`.
pub open spec fn lexeme_start(s: Seq<char>, i: int) -> int {
    run_end(s, i, space_class())
}

/// One request for a token on the text `s` with the cursor at `i`: what it
/// yields and where the cursor stands afterwards.
pub open spec fn lex_next(s: Seq<char>, i: int) -> (Lexed, int) {
    let j = lexeme_start(s, i);
    if j >= s.len() {
        (Lexed::End, j)
    } else {
        lex_lexeme(s, j)
    }
}

/// The index at which a run of `class` characters from `i` stops, and
/// that every character before it is in the class.
pub proof fn lemma_run_end(s: Seq<char>, i: int, class: spec_fn(char) -> bool)
    requires
        0 <= i <= s.len(),
    ensures
        i <= run_end(s, i, class) <= s.len(),
        forall|m: int| i <= m < run_end(s, i, class) ==> class(#[trigger] s[m]),
        run_end(s, i, class) < s.len() ==> !class(s[run_end(s, i, class)]),
    decreases s.len() - i,
{
    if i < s.len() && class(s[i]) {
        lemma_run_end(s, i + 1, class);
    }
}

proof fn lemma_subrange_push(s: Seq<char>, a: int, b: int)
    requires
        0 <= a <= b < s.len(),
    ensures
        s.subrange(a, b + 1) == s.subrange(a, b).push(s[b]),
{
    assert(s.subrange(a, b + 1) =~= s.subrange(a, b).push(s[b]));
}

/// A string holding exactly the characters of `chars`.
fn string_from(chars: &Vec<char>) -> (r: String)
    ensures
        r@ == chars@,
{
    let mut r = String::new();
    let mut i: usize = 0;
    while i < chars.len()
        invariant
            i <= chars.len(),
            r@ == chars@.subrange(0, i as int),
        decreases chars.len() - i,
    {
        push_char(&mut r, chars[i]);
        i = i + 1;
        assert(r@ =~= chars@.subrange(0, i as int));
    }
    assert(r@ =~= chars@);
    r
}

fn is_decimal_digit(c: char) -> (r: bool)
    ensures
        r == is_digit(c),
{
    '0' <= c && c <= '9'
}

fn is_word_char(c: char) -> (r: bool)
    ensures
        r == continues_word(c),
{
    is_alphabetic(c) || c == '_' || is_decimal_digit(c)
}

/// A forward-only lexer over an owned buffer of characters.
pub struct Lexer {
    chars: Vec<char>,
    index: usize,
    position: Position,
}

impl Lexer {
    /// The text being lexed.
    pub closed spec fn text(&self) -> Seq<char> {
        self.chars@
    }

    /// How many characters have been consumed.
    pub closed spec fn cursor(&self) -> int {
        self.index as int
    }

    pub closed spec fn wf(&self) -> bool {
        &&& self.chars@.len() < usize::MAX
        &&& self.index <= self.chars@.len()
        &&& self.position@ == position_at(self.chars@, self.index as int)
    }

    /// A lexer at the start of `text`, at row 1, column 1.
    pub fn new(text: &str) -> (r: Lexer)
        requires
            text@.len() < usize::MAX,
        ensures
            r.wf(),
            r.text() == text@,
            r.cursor() == 0,
    {
        let mut chars: Vec<char> = Vec::new();
        for c in it: text.chars()
            invariant
                chars@ == it.seq().take(it.index() as int),
        {
            chars.push(c);
        }
        assert(chars@ =~= text@);
        Lexer { chars, index: 0, position: Position::start() }
    }

    /// The position reached so far.
    pub fn position(&self) -> (r: &Position)
        requires
            self.wf(),
        ensures
            r@ == position_at(self.text(), self.cursor()),
    {
        &self.position
    }

    /// Consumes one character, if any is left.
    fn consume(&mut self) -> (r: Option<char>)
        requires
            old(self).wf(),
        ensures
            final(self).wf(),
            final(self).text() == old(self).text(),
            old(self).cursor() < old(self).text().len() ==> r == Some(old(self).text()[old(self).cursor()])
                && final(self).cursor() == old(self).cursor() + 1,
            old(self).cursor() >= old(self).text().len() ==> r is None && final(self).cursor()
                == old(self).cursor(),
    {
        if self.index < self.chars.len() {
            let c = self.chars[self.index];
            proof {
                lemma_position_bounds(self.chars@, self.index as int);
            }
            self.position.advance(c);
            self.index = self.index + 1;
            Some(c)
        } else {
            None
        }
    }

    /// The next character, without consuming it.
    fn peek(&self) -> (r: Option<char>)
        requires
            self.wf(),
        ensures
            self.cursor() < self.text().len() ==> r == Some(self.text()[self.cursor()]),
            self.cursor() >= self.text().len() ==> r is None,
    {
        if self.index < self.chars.len() {
            Some(self.chars[self.index])
        } else {
            None
        }
    }

    /// Starting from the already consumed `current`, consumes characters
    /// for as long as `check` holds of them, and returns `current` followed
    /// by those characters.
    fn buffered_lex(
        &mut self,
        current: char,
        check: impl Fn(char) -> bool,
        Ghost(class): Ghost<spec_fn(char) -> bool>,
    ) -> (r: String)
        requires
            old(self).wf(),
            forall|c: char| check.requires((c,)),
            forall|c: char, b: bool| check.ensures((c,), b) ==> b == class(c),
        ensures
            final(self).wf(),
            final(self).text() == old(self).text(),
            final(self).cursor() == run_end(old(self).text(), old(self).cursor(), class),
            r@ == seq![current] + old(self).text().subrange(old(self).cursor(), final(self).cursor()),
    {
        let ghost s = self.chars@;
        let ghost start = self.index as int;
        let mut buffer = String::new();
        push_char(&mut buffer, current);
        assert(buffer@ =~= seq![current] + s.subrange(start, start));
        loop
            invariant
                forall|c: char| check.requires((c,)),
                forall|c: char, b: bool| check.ensures((c,), b) ==> b == class(c),
                self.wf(),
                self.text() == s,
                0 <= start <= self.cursor() <= s.len(),
                run_end(s, self.cursor(), class) == run_end(s, start, class),
                buffer@ == seq![current] + s.subrange(start, self.cursor()),
            ensures
                self.wf(),
                self.text() == s,
                self.cursor() == run_end(s, start, class),
                buffer@ == seq![current] + s.subrange(start, self.cursor()),
            decreases s.len() - self.cursor(),
        {
            match self.peek() {
                None => break,
                Some(c) => {
                    if check(c) {
                        let ghost before = buffer@;
                        let ghost at = self.cursor();
                        self.consume();
                        push_char(&mut buffer, c);
                        proof {
                            lemma_subrange_push(s, start, at);
                        }
                        assert(buffer@ =~= seq![current] + s.subrange(start, self.cursor()));
                    } else {
                        break;
                    }
                },
            }
        }
        buffer
    }

    /// Reads one character of a quoted literal without consuming it,
    /// resolving a backslash escape (the backslash itself is consumed).
    /// Yields whether the character was escaped, and the character.
    fn peek_character(&mut self) -> (r: Option<Result<(bool, char), LexingError>>)
        requires
            old(self).wf(),
        ensures
            final(self).wf(),
            final(self).text() == old(self).text(),
            (quoted_view(r), final(self).cursor()) == scan_quoted(old(self).text(), old(self).cursor()),
    {
        match self.peek() {
            None => None,
            Some(c) => {
                if c == '\\' {
                    match self.consume() {
                        Some(_) => match self.peek() {
                            Some(r) => {
                                if r == '"' || r == '\\' || r == '\'' {
                                    Some(Ok((true, r)))
                                } else {
                                    Some(Err(LexingError::UnknownEscapeCharacter(r)))
                                }
                            },
                            None => None,
                        },
                        None => None,
                    }
                } else {
                    Some(Ok((false, c)))
                }
            },
        }
    }

    /// Produces the next token, or the error for the lexeme at hand, or
    /// `None` once nothing but whitespace is left. The token carries the
    /// position reached after its first character.
    pub fn next(&mut self) -> (r: Option<Result<Token, LexingError>>)
        requires
            old(self).wf(),
        ensures
            final(self).wf(),
            final(self).text() == old(self).text(),
            (outcome(r), final(self).cursor()) == lex_next(old(self).text(), old(self).cursor()),
            r matches Some(Ok(t)) ==> t.position@ == position_at(
                old(self).text(),
                lexeme_start(old(self).text(), old(self).cursor()) + 1,
            ),
    {
        let ghost s = self.chars@;
        let ghost i0 = self.index as int;
        proof {
            lemma_run_end(s, i0, space_class());
        }
        let mut current: char = ' ';
        loop
            invariant_except_break
                self.cursor() <= lexeme_start(s, i0),
                lexeme_start(s, self.cursor()) == lexeme_start(s, i0),
            invariant
                self.wf(),
                self.text() == s,
                s == old(self).text(),
                i0 == old(self).cursor(),
                0 <= i0 <= self.cursor(),
                lexeme_start(s, i0) <= s.len(),
            ensures
                self.wf(),
                self.text() == s,
                1 <= self.cursor(),
                self.cursor() - 1 == lexeme_start(s, i0) < s.len(),
                current == s[self.cursor() - 1],
            decreases s.len() - self.cursor(),
        {
            proof {
                lemma_run_end(s, self.cursor(), space_class());
            }
            match self.consume() {
                None => {
                    return None;
                },
                Some(c) => {
                    current = c;
                    if !is_whitespace(c) {
                        break;
                    }
                },
            }
        }
        let ghost j = self.index as int - 1;
        let ghost k = self.index as int;
        assert(lex_next(s, i0) == lex_lexeme(s, j));
        let mut token = Token::new(self.position);
        token.kind = match current {
            '@' => TokenKind::CommercialAt,
            ':' => TokenKind::Colon,
            ';' => TokenKind::Semicolon,
            '=' => match self.peek() {
                Some('=') => {
                    self.consume();
                    TokenKind::DoubleEqualsSign
                },
                Some('>') => {
                    self.consume();
                    TokenKind::RightwardsDoubleArrow
                },
                _ => TokenKind::EqualsSign,
            },
            '+' => match self.peek() {
                Some('+') => {
                    self.consume();
                    TokenKind::DoublePlusSign
                },
                _ => TokenKind::PlusSign,
            },
            '-' => match self.peek() {
                Some('-') => {
                    self.consume();
                    TokenKind::DoubleMinusSign
                },
                Some('>') => {
                    self.consume();
                    TokenKind::RightwardsArrow
                },
                _ => TokenKind::MinusSign,
            },
            '|' => match self.peek() {
                Some('|') => {
                    self.consume();
                    TokenKind::DoubleVerticalLine
                },
                _ => TokenKind::VerticalLine,
            },
            '(' => TokenKind::LeftParenthesis,
            ')' => TokenKind::RightParenthesis,
            '"' => {
                assert(lex_lexeme(s, j) == scan_string(s, k, Seq::empty()));
                let mut buffer: Vec<char> = Vec::new();
                loop
                    invariant_except_break
                        scan_string(s, self.cursor(), buffer@) == scan_string(s, k, Seq::empty()),
                    invariant
                        self.wf(),
                        self.text() == s,
                        s == old(self).text(),
                        i0 == old(self).cursor(),
                        k <= self.cursor() <= s.len(),
                        lex_next(s, i0) == scan_string(s, k, Seq::empty()),
                    ensures
                        self.wf(),
                        self.text() == s,
                        lex_next(s, i0) == (Lexed::Token(KindView::String(buffer@)), self.cursor()),
                    decreases s.len() - self.cursor(),
                {
                    match self.peek_character() {
                        Some(Ok((is_escaped, c))) => {
                            if c == '"' && !is_escaped {
                                self.consume();
                                break;
                            }
                            buffer.push(c);
                            self.consume();
                        },
                        Some(Err(e)) => return Some(Err(e)),
                        None => return Some(Err(LexingError::IncompleteString(buffer))),
                    }
                }
                TokenKind::String(string_from(&buffer))
            },
            '\'' => {
                assert(lex_lexeme(s, j) == scan_character(s, k));
                let c = match self.peek_character() {
                    Some(Ok((_, c))) => c,
                    Some(Err(e)) => return Some(Err(e)),
                    None => return Some(Err(LexingError::IncompleteCharacter)),
                };
                self.consume();
                match self.peek() {
                    Some(close) => {
                        if close != '\'' {
                            self.consume();
                            return Some(Err(LexingError::IncompleteCharacter));
                        }
                    },
                    None => return Some(Err(LexingError::IncompleteCharacter)),
                }
                self.consume();
                TokenKind::Character(c)
            },
            _ => {
                if is_decimal_digit(current) {
                    let buffer = self.buffered_lex(current, is_decimal_digit, Ghost(digit_class()));
                    proof {
                        lemma_run_end(s, k, digit_class());
                        assert(buffer@ =~= s.subrange(j, self.cursor()));
                        assert forall|i: int| 0 <= i < buffer@.len() implies is_digit(
                            #[trigger] buffer@[i],
                        ) by {
                            if i > 0 {
                                assert(buffer@[i] == s[j + i]);
                            }
                        }
                    }
                    match parse_usize(buffer.as_str()) {
                        Err(e) => return Some(Err(LexingError::NumberParsing(e))),
                        Ok(v) => TokenKind::Number(v),
                    }
                } else if is_alphabetic(current) || current == '_' {
                    let buffer = self.buffered_lex(current, is_word_char, Ghost(word_class()));
                    proof {
                        lemma_run_end(s, k, word_class());
                        assert(buffer@ =~= s.subrange(j, self.cursor()));
                    }
                    match lookup_keyword(buffer.as_str()) {
                        None => TokenKind::Identifier(buffer),
                        Some(kw) => kw,
                    }
                } else {
                    return Some(Err(LexingError::UnknownToken));
                }
            },
        };
        Some(Ok(token))
    }
}

/// What `n` successive requests for a token yield on the text `s`, starting
/// with the cursor at `i`.
pub open spec fn lex_run(s: Seq<char>, i: int, n: nat) -> Seq<Lexed>
    decreases n,
{
    if n == 0 {
        Seq::empty()
    } else {
        let (first, next) = lex_next(s, i);
        seq![first] + lex_run(s, next, (n - 1) as nat)
    }
}

/// Two lexers made fresh over the same text yield the same outcomes, request
/// for request.
pub proof fn lemma_deterministic(a: Lexer, b: Lexer, n: nat)
    requires
        a.text() == b.text(),
        a.cursor() == 0,
        b.cursor() == 0,
    ensures
        lex_run(a.text(), a.cursor(), n) == lex_run(b.text(), b.cursor(), n),
{
}

proof fn lemma_scan_string_bounds(s: Seq<char>, p: int, acc: Seq<char>)
    requires
        0 <= p <= s.len(),
    ensures
        p <= scan_string(s, p, acc).1 <= s.len(),
    decreases s.len() - p,
{
    let (q, after) = scan_quoted(s, p);
    if let Some(Ok((escaped, c))) = q {
        if !(c == '"' && !escaped) {
            lemma_scan_string_bounds(s, after + 1, acc.push(c));
        }
    }
}

/// A request for a token never moves the cursor back nor past the end of
/// the text, so the row reported after it is at least the row before it.
pub proof fn lemma_next_moves_forward(s: Seq<char>, i: int)
    requires
        0 <= i <= s.len(),
    ensures
        i <= lex_next(s, i).1 <= s.len(),
        position_at(s, i).0 <= position_at(s, lex_next(s, i).1).0,
{
    let j = lexeme_start(s, i);
    lemma_run_end(s, i, space_class());
    if j < s.len() {
        lemma_run_end(s, j + 1, digit_class());
        lemma_run_end(s, j + 1, word_class());
        lemma_scan_string_bounds(s, j + 1, Seq::empty());
    }
    lemma_rows_monotone(s, i, lex_next(s, i).1);
}

/// On a text that holds nothing but whitespace from the cursor on, a
/// request yields no token and no error, and consumes the rest.
pub proof fn lemma_whitespace_ends(s: Seq<char>, i: int)
    requires
        0 <= i <= s.len(),
        forall|m: int| i <= m < s.len() ==> white_space(#[trigger] s[m]),
    ensures
        lex_next(s, i) == (Lexed::End, s.len() as int),
    decreases s.len() - i,
{
    if i < s.len() {
        lemma_whitespace_ends(s, i + 1);
    }
}

} // verus!
