//! The lexer and parser: turns one source text into a sequence of per-node
//! syntax trees plus diagnostics. Parsing is node-isolated: a syntax error
//! inside one node's body does not prevent parsing of sibling nodes.

use vstd::prelude::*;
use crate::ast::{BasicStatement, BinaryOperator, Expression, Header, IfBranch, ParsedNode, Statement};
use crate::diagnostics::{
    extends_diagnostics, has_error, lemma_extends_diagnostics, lemma_extends_diagnostics_push,
    Diagnostic,
};
use crate::position::{Position, PositionRange};
use crate::text::{index_of_char, is_space, split_words, split_words_spec, str_starts_with, trim, trim_spec, views_of};
use crate::types::Value;

verus! {

/// The value of the first header of the sequence that carries the key, or
/// `None` when no header does.
pub open spec fn first_header_value(headers: Seq<Header>, key: Seq<char>) -> Option<Seq<char>>
    decreases headers.len(),
{
    if headers.len() == 0 {
        None
    } else if headers[0].key@ == key {
        Some(headers[0].value@)
    } else {
        first_header_value(headers.drop_first(), key)
    }
}

/// The tag set a node derives from its headers: the value of its first
/// `tags` header split on whitespace, or no tags at all when it has no
/// `tags` header.
pub open spec fn node_tags_spec(headers: Seq<Header>) -> Seq<Seq<char>> {
    match first_header_value(headers, "tags"@) {
        Some(v) => split_words_spec(v),
        None => Seq::empty(),
    }
}

/// A node with no `tags` header yields an empty tag set.
pub proof fn lemma_no_tags_header_empty_tags(headers: Seq<Header>)
    requires
        forall|i: int| 0 <= i < headers.len() ==> (#[trigger] headers[i].key@) != "tags"@,
    ensures
        node_tags_spec(headers) == Seq::<Seq<char>>::empty(),
    decreases headers.len(),
{
    if headers.len() > 0 {
        assert(headers[0].key@ != "tags"@);
        assert forall|i: int| 0 <= i < headers.drop_first().len() implies (#[trigger] headers
            .drop_first()[i].key@) != "tags"@ by {
            assert(headers.drop_first()[i] == headers[i + 1]);
        }
        lemma_no_tags_header_empty_tags(headers.drop_first());
    }
}

/// Holds when a parsed node is well formed: its name is the value of its
/// first `title` header, and its tags are exactly the whitespace-split
/// words of its first `tags` header value, or none without such a header.
pub open spec fn parsed_node_wf(node: ParsedNode) -> bool {
    &&& first_header_value(node.headers@, "title"@) == Some(node.name@)
    &&& views_of(node.tags@) == node_tags_spec(node.headers@)
}

/// Everything one source text parses to: its nodes, its file-level tags,
/// and the diagnostics raised along the way.
pub struct ParseResult {
    /// The nodes of the file, in order of appearance.
    pub nodes: Vec<ParsedNode>,

    /// The file-level tags, read from tag lines outside any node.
    pub file_tags: Vec<String>,

    /// The diagnostics raised while parsing.
    pub diagnostics: Vec<Diagnostic>,
}

/// Returns a reference to the value of the first header of the list that
/// carries the key, or `None` when no header does.
pub fn find_first_header<'a>(headers: &'a Vec<Header>, key: &String) -> (r: Option<&'a String>)
    ensures
        match r {
            Some(v) => first_header_value(headers@, key@) == Some(v@),
            None => first_header_value(headers@, key@) is None,
        },
{
    proof {
        assert(headers@.skip(0) =~= headers@);
    }
    let mut i: usize = 0;
    while i < headers.len()
        invariant
            0 <= i <= headers@.len(),
            first_header_value(headers@, key@) == first_header_value(
                headers@.skip(i as int),
                key@,
            ),
        decreases headers@.len() - i,
    {
        if headers[i].key == *key {
            proof {
                assert(headers@.skip(i as int)[0] == headers@[i as int]);
            }
            return Some(&headers[i].value);
        }
        proof {
            assert(headers@.skip(i as int)[0] == headers@[i as int]);
            assert(headers@.skip(i as int).drop_first() =~= headers@.skip(i + 1));
        }
        i = i + 1;
    }
    proof {
        assert(headers@.skip(headers@.len() as int).len() == 0);
    }
    None
}

/// A diagnostic for one source line: carries the file name, the range of
/// the line, and the line's text as context.
fn line_diagnostic(file_name: &String, line_number: usize, line: &String, message: String) -> (r:
    Diagnostic)
    ensures
        r.severity == crate::diagnostics::DiagnosticSeverity::Error,
        r.message == message,
{
    let end_character: usize = line.as_str().unicode_len();
    Diagnostic::from_message(message).with_file_name(file_name.clone()).read_parser_rule_context(
        &crate::diagnostics::RuleContext {
            range: PositionRange::new(
                Position::new(line_number, 0),
                Position::new(line_number, end_character),
            ),
            text: line.clone(),
        },
    )
}

/// Reports one `Error` diagnostic for a source line, keeping everything
/// reported before it.
fn push_line_error(
    file_name: &String,
    line_number: usize,
    line: &String,
    message: String,
    diagnostics: &mut Vec<Diagnostic>,
)
    ensures
        extends_diagnostics(old(diagnostics)@, final(diagnostics)@),
        has_error(final(diagnostics)@),
{
    let diagnostic = line_diagnostic(file_name, line_number, line, message);
    let ghost reported = diagnostic;
    diagnostics.push(diagnostic);
    proof {
        lemma_extends_diagnostics_push(old(diagnostics)@, reported);
        assert(diagnostics@[diagnostics@.len() - 1].severity
            == crate::diagnostics::DiagnosticSeverity::Error);
    }
}

/// The length of the longest prefix of `s` that holds no line feed.
pub open spec fn line_break_len(s: Seq<char>) -> int
    decreases s.len(),
{
    if s.len() == 0 || s[0] == '\n' {
        0
    } else {
        1 + line_break_len(s.drop_first())
    }
}

proof fn lemma_line_break_len_bound(s: Seq<char>)
    ensures
        0 <= line_break_len(s) <= s.len(),
    decreases s.len(),
{
    if s.len() > 0 && s[0] != '\n' {
        lemma_line_break_len_bound(s.drop_first());
    }
}

proof fn lemma_line_break_len_is(s: Seq<char>, k: int)
    requires
        0 <= k <= s.len(),
        forall|m: int| 0 <= m < k ==> (#[trigger] s[m]) != '\n',
        k < s.len() ==> s[k] == '\n',
    ensures
        line_break_len(s) == k,
    decreases k,
{
    if k > 0 {
        let t = s.drop_first();
        assert forall|m: int| 0 <= m < k - 1 implies (#[trigger] t[m]) != '\n' by {
            assert(t[m] == s[m + 1]);
        }
        if k - 1 < t.len() {
            assert(t[k - 1] == s[k]);
        }
        lemma_line_break_len_is(t, k - 1);
    }
}

/// A line with a trailing carriage return dropped.
pub open spec fn without_return(line: Seq<char>) -> Seq<char> {
    if line.len() > 0 && line.last() == '\r' {
        line.drop_last()
    } else {
        line
    }
}

/// The lines of a source text: line feeds separate lines, and a carriage
/// return at the end of a line is dropped. A text without a line feed is
/// one line; a trailing line feed yields a final empty line.
pub open spec fn spec_lines(s: Seq<char>) -> Seq<Seq<char>>
    decreases s.len(),
    when s.len() >= 0
    via spec_lines_decreases
{
    if line_break_len(s) == s.len() {
        seq![without_return(s)]
    } else {
        seq![without_return(s.subrange(0, line_break_len(s)))] + spec_lines(
            s.skip(line_break_len(s) + 1),
        )
    }
}

#[via_fn]
proof fn spec_lines_decreases(s: Seq<char>) {
    lemma_line_break_len_bound(s);
}

/// Splits a source text into its lines: line feeds separate lines, and a
/// carriage return at the end of a line is dropped.
fn split_lines(source: &str) -> (r: Vec<String>)
    ensures
        views_of(r@) == spec_lines(source@),
{
    let n = source.unicode_len();
    let r = split_lines_from(source, n, 0);
    proof {
        assert(source@.skip(0) =~= source@);
    }
    r
}

fn split_lines_from(source: &str, n: usize, start: usize) -> (r: Vec<String>)
    requires
        n == source@.len(),
        start <= n,
    ensures
        views_of(r@) == spec_lines(source@.skip(start as int)),
    decreases n - start,
{
    let ghost tail = source@.skip(start as int);
    let mut j: usize = start;
    while j < n && source.get_char(j) != '\n'
        invariant
            n == source@.len(),
            start <= j <= n,
            forall|m: int| start <= m < j ==> (#[trigger] source@[m]) != '\n',
        decreases n - j,
    {
        j = j + 1;
    }
    proof {
        assert forall|m: int| 0 <= m < j - start implies (#[trigger] tail[m]) != '\n' by {
            assert(tail[m] == source@[start + m]);
        }
        if j < n {
            assert(tail[j - start] == source@[j as int]);
        }
        lemma_line_break_len_is(tail, j - start);
    }
    let mut end = j;
    if end > start && source.get_char(end - 1) == '\r' {
        end = end - 1;
    }
    let line = source.substring_char(start, end).to_owned();
    proof {
        if j == n {
            assert(without_return(tail) =~= source@.subrange(start as int, end as int));
        } else {
            assert(without_return(tail.subrange(0, j - start)) =~= source@.subrange(
                start as int,
                end as int,
            ));
        }
    }
    if j == n {
        let mut lines: Vec<String> = Vec::new();
        lines.push(line);
        proof {
            assert(views_of(lines@) =~= spec_lines(tail));
        }
        lines
    } else {
        let rest = split_lines_from(source, n, j + 1);
        let mut lines = rest;
        lines.insert(0, line);
        proof {
            assert(tail.skip(j - start + 1) =~= source@.skip(j + 1));
            assert(views_of(lines@) =~= seq![line@] + views_of(lines@.drop_first()));
            assert(views_of(lines@.drop_first()) =~= spec_lines(source@.skip(j + 1)));
            assert(views_of(lines@) =~= spec_lines(tail));
        }
        lines
    }
}

/// Holds when a line, trimmed, is the delimiter that closes a node.
pub open spec fn closes_node(line: Seq<char>) -> bool {
    trim_spec(line) == "==="@
}

/// How many lines of the sequence close a node.
pub open spec fn node_closer_count(lines: Seq<Seq<char>>) -> int
    decreases lines.len(),
{
    if lines.len() == 0 {
        0
    } else {
        node_closer_count(lines.drop_last()) + if closes_node(lines.last()) {
            1int
        } else {
            0int
        }
    }
}

// ---------------------------------------------------------------------
// Expression tokens
// ---------------------------------------------------------------------

/// One token of the expression language inside a command.
enum Token {
    Number(i64),
    Text(String),
    Identifier(String),
    Variable(String),
    True,
    False,
    Plus,
    Minus,
    Star,
    Slash,
    LeftParen,
    RightParen,
    Comma,
    EqualEqual,
    NotEqual,
    Less,
    LessEqual,
    Greater,
    GreaterEqual,
    Assign,
    KeywordAnd,
    KeywordOr,
    KeywordTo,
}

fn is_digit(c: char) -> (r: bool) {
    let u = c as u32;
    48 <= u && u <= 57
}

fn is_letter(c: char) -> (r: bool) {
    let u = c as u32;
    (65 <= u && u <= 90) || (97 <= u && u <= 122)
}

fn is_identifier_char(c: char) -> (r: bool) {
    is_letter(c) || is_digit(c) || c == '_'
}

fn digit_value(c: char) -> (r: i64)
    ensures
        0 <= r <= 9,
{
    let u = c as u32;
    if 48 <= u && u <= 57 {
        (u - 48) as i64
    } else {
        0
    }
}

/// Turns the text of a command into expression tokens, or an error
/// message naming the first character it cannot read.
fn tokenize(s: &str) -> (r: Result<Vec<Token>, String>) {
    let n = s.unicode_len();
    let mut tokens: Vec<Token> = Vec::new();
    let mut i: usize = 0;
    while i < n
        invariant
            n == s@.len(),
            0 <= i <= n,
        decreases n - i,
    {
        let c = s.get_char(i);
        if is_space(c) {
            i = i + 1;
        } else if is_digit(c) {
            // Number literals are capped well below the integer limit, so
            // the accumulation below cannot overflow.
            let mut value: i64 = digit_value(c);
            let mut j = i + 1;
            let mut overflow = false;
            while j < n && is_digit(s.get_char(j))
                invariant
                    n == s@.len(),
                    i + 1 <= j <= n,
                    0 <= value < 10_000_000_000_000_000i64,
                decreases n - j,
            {
                let d = digit_value(s.get_char(j));
                if value >= 1_000_000_000_000_000 {
                    overflow = true;
                    value = 0;
                } else {
                    value = value * 10 + d;
                }
                j = j + 1;
            }
            if overflow {
                return Err(String::from_str("number literal is too large"));
            }
            tokens.push(Token::Number(value));
            i = j;
        } else if c == '"' {
            let mut j = i + 1;
            while j < n && s.get_char(j) != '"'
                invariant
                    n == s@.len(),
                    i + 1 <= j <= n,
                decreases n - j,
            {
                j = j + 1;
            }
            if j == n {
                return Err(String::from_str("string literal is missing its closing quote"));
            }
            tokens.push(Token::Text(s.substring_char(i + 1, j).to_owned()));
            i = j + 1;
        } else if c == '$' {
            let mut j = i + 1;
            while j < n && is_identifier_char(s.get_char(j))
                invariant
                    n == s@.len(),
                    i + 1 <= j <= n,
                decreases n - j,
            {
                j = j + 1;
            }
            if j == i + 1 {
                return Err(String::from_str("a variable name must follow the dollar sign"));
            }
            tokens.push(Token::Variable(s.substring_char(i + 1, j).to_owned()));
            i = j;
        } else if is_letter(c) || c == '_' {
            let mut j = i + 1;
            while j < n && is_identifier_char(s.get_char(j))
                invariant
                    n == s@.len(),
                    i + 1 <= j <= n,
                decreases n - j,
            {
                j = j + 1;
            }
            let word = s.substring_char(i, j).to_owned();
            if word == String::from_str("true") {
                tokens.push(Token::True);
            } else if word == String::from_str("false") {
                tokens.push(Token::False);
            } else if word == String::from_str("and") {
                tokens.push(Token::KeywordAnd);
            } else if word == String::from_str("or") {
                tokens.push(Token::KeywordOr);
            } else if word == String::from_str("to") {
                tokens.push(Token::KeywordTo);
            } else {
                tokens.push(Token::Identifier(word));
            }
            i = j;
        } else if c == '+' {
            tokens.push(Token::Plus);
            i = i + 1;
        } else if c == '-' {
            tokens.push(Token::Minus);
            i = i + 1;
        } else if c == '*' {
            tokens.push(Token::Star);
            i = i + 1;
        } else if c == '/' {
            tokens.push(Token::Slash);
            i = i + 1;
        } else if c == '(' {
            tokens.push(Token::LeftParen);
            i = i + 1;
        } else if c == ')' {
            tokens.push(Token::RightParen);
            i = i + 1;
        } else if c == ',' {
            tokens.push(Token::Comma);
            i = i + 1;
        } else if c == '=' {
            if i + 1 < n && s.get_char(i + 1) == '=' {
                tokens.push(Token::EqualEqual);
                i = i + 2;
            } else {
                tokens.push(Token::Assign);
                i = i + 1;
            }
        } else if c == '!' {
            if i + 1 < n && s.get_char(i + 1) == '=' {
                tokens.push(Token::NotEqual);
                i = i + 2;
            } else {
                return Err(String::from_str("unexpected character in expression"));
            }
        } else if c == '<' {
            if i + 1 < n && s.get_char(i + 1) == '=' {
                tokens.push(Token::LessEqual);
                i = i + 2;
            } else {
                tokens.push(Token::Less);
                i = i + 1;
            }
        } else if c == '>' {
            if i + 1 < n && s.get_char(i + 1) == '=' {
                tokens.push(Token::GreaterEqual);
                i = i + 2;
            } else {
                tokens.push(Token::Greater);
                i = i + 1;
            }
        } else {
            return Err(String::from_str("unexpected character in expression"));
        }
    }
    Ok(tokens)
}

// ---------------------------------------------------------------------
// Expression grammar: or > and > comparison > additive > multiplicative
// > primary, with standard precedence.
// ---------------------------------------------------------------------

fn parse_expression(tokens: &Vec<Token>, position: usize) -> (r: Result<(Expression, usize), String>)
    requires
        position <= tokens@.len(),
    ensures
        r matches Ok(p) ==> position < p.1 <= tokens@.len(),
    decreases tokens@.len() - position, 6int,
{
    let (mut left, mut pos) = parse_and_expression(tokens, position)?;
    while pos < tokens.len() && matches!(tokens[pos], Token::KeywordOr)
        invariant
            position < pos <= tokens@.len(),
        decreases tokens@.len() - pos,
    {
        let (right, next) = parse_and_expression(tokens, pos + 1)?;
        left = Expression::Binary {
            operator: BinaryOperator::Or,
            left: Box::new(left),
            right: Box::new(right),
        };
        pos = next;
    }
    Ok((left, pos))
}

fn parse_and_expression(tokens: &Vec<Token>, position: usize) -> (r: Result<
    (Expression, usize),
    String,
>)
    requires
        position <= tokens@.len(),
    ensures
        r matches Ok(p) ==> position < p.1 <= tokens@.len(),
    decreases tokens@.len() - position, 5int,
{
    let (mut left, mut pos) = parse_comparison_expression(tokens, position)?;
    while pos < tokens.len() && matches!(tokens[pos], Token::KeywordAnd)
        invariant
            position < pos <= tokens@.len(),
        decreases tokens@.len() - pos,
    {
        let (right, next) = parse_comparison_expression(tokens, pos + 1)?;
        left = Expression::Binary {
            operator: BinaryOperator::And,
            left: Box::new(left),
            right: Box::new(right),
        };
        pos = next;
    }
    Ok((left, pos))
}

fn parse_comparison_expression(tokens: &Vec<Token>, position: usize) -> (r: Result<
    (Expression, usize),
    String,
>)
    requires
        position <= tokens@.len(),
    ensures
        r matches Ok(p) ==> position < p.1 <= tokens@.len(),
    decreases tokens@.len() - position, 4int,
{
    let (left, pos) = parse_additive_expression(tokens, position)?;
    if pos < tokens.len() {
        let operator = match &tokens[pos] {
            Token::EqualEqual => Some(BinaryOperator::EqualTo),
            Token::NotEqual => Some(BinaryOperator::NotEqualTo),
            Token::Less => Some(BinaryOperator::LessThan),
            Token::LessEqual => Some(BinaryOperator::LessThanOrEqualTo),
            Token::Greater => Some(BinaryOperator::GreaterThan),
            Token::GreaterEqual => Some(BinaryOperator::GreaterThanOrEqualTo),
            _ => None,
        };
        if let Some(op) = operator {
            let (right, next) = parse_additive_expression(tokens, pos + 1)?;
            return Ok(
                (
                    Expression::Binary {
                        operator: op,
                        left: Box::new(left),
                        right: Box::new(right),
                    },
                    next,
                ),
            );
        }
    }
    Ok((left, pos))
}

fn parse_additive_expression(tokens: &Vec<Token>, position: usize) -> (r: Result<
    (Expression, usize),
    String,
>)
    requires
        position <= tokens@.len(),
    ensures
        r matches Ok(p) ==> position < p.1 <= tokens@.len(),
    decreases tokens@.len() - position, 3int,
{
    let (mut left, mut pos) = parse_multiplicative_expression(tokens, position)?;
    while pos < tokens.len() && (matches!(tokens[pos], Token::Plus) || matches!(
        tokens[pos],
        Token::Minus,
    ))
        invariant
            position < pos <= tokens@.len(),
        decreases tokens@.len() - pos,
    {
        let operator = if matches!(tokens[pos], Token::Plus) {
            BinaryOperator::Add
        } else {
            BinaryOperator::Subtract
        };
        let (right, next) = parse_multiplicative_expression(tokens, pos + 1)?;
        left = Expression::Binary {
            operator,
            left: Box::new(left),
            right: Box::new(right),
        };
        pos = next;
    }
    Ok((left, pos))
}

fn parse_multiplicative_expression(tokens: &Vec<Token>, position: usize) -> (r: Result<
    (Expression, usize),
    String,
>)
    requires
        position <= tokens@.len(),
    ensures
        r matches Ok(p) ==> position < p.1 <= tokens@.len(),
    decreases tokens@.len() - position, 2int,
{
    let (mut left, mut pos) = parse_primary_expression(tokens, position)?;
    while pos < tokens.len() && (matches!(tokens[pos], Token::Star) || matches!(
        tokens[pos],
        Token::Slash,
    ))
        invariant
            position < pos <= tokens@.len(),
        decreases tokens@.len() - pos,
    {
        let operator = if matches!(tokens[pos], Token::Star) {
            BinaryOperator::Multiply
        } else {
            BinaryOperator::Divide
        };
        let (right, next) = parse_primary_expression(tokens, pos + 1)?;
        left = Expression::Binary {
            operator,
            left: Box::new(left),
            right: Box::new(right),
        };
        pos = next;
    }
    Ok((left, pos))
}

fn parse_primary_expression(tokens: &Vec<Token>, position: usize) -> (r: Result<
    (Expression, usize),
    String,
>)
    requires
        position <= tokens@.len(),
    ensures
        r matches Ok(p) ==> position < p.1 <= tokens@.len(),
    decreases tokens@.len() - position, 1int,
{
    if position >= tokens.len() {
        return Err(String::from_str("the expression ends where a value was expected"));
    }
    match &tokens[position] {
        Token::Number(n) => Ok((Expression::Literal(Value::Number(*n)), position + 1)),
        Token::Text(t) => Ok((Expression::Literal(Value::String(t.clone())), position + 1)),
        Token::True => Ok((Expression::Literal(Value::Boolean(true)), position + 1)),
        Token::False => Ok((Expression::Literal(Value::Boolean(false)), position + 1)),
        Token::Variable(name) => Ok((Expression::Variable(name.clone()), position + 1)),
        Token::Minus => {
            let (operand, next) = parse_primary_expression(tokens, position + 1)?;
            Ok(
                (
                    Expression::Binary {
                        operator: BinaryOperator::Subtract,
                        left: Box::new(Expression::Literal(Value::Number(0))),
                        right: Box::new(operand),
                    },
                    next,
                ),
            )
        },
        Token::LeftParen => {
            let (inner, next) = parse_expression(tokens, position + 1)?;
            if next < tokens.len() && matches!(tokens[next], Token::RightParen) {
                Ok((inner, next + 1))
            } else {
                Err(String::from_str("a closing parenthesis is missing"))
            }
        },
        Token::Identifier(name) => {
            let function = name.clone();
            if position + 1 >= tokens.len() || !matches!(tokens[position + 1], Token::LeftParen) {
                return Err(
                    String::from_str("an opening parenthesis must follow a function name"),
                );
            }
            let mut arguments: Vec<Expression> = Vec::new();
            let mut pos = position + 2;
            if pos < tokens.len() && matches!(tokens[pos], Token::RightParen) {
                return Ok((Expression::FunctionCall { function, arguments }, pos + 1));
            }
            loop
                invariant
                    position + 2 <= pos <= tokens@.len(),
                decreases tokens@.len() - pos,
            {
                if pos >= tokens.len() {
                    return Err(String::from_str("a closing parenthesis is missing"));
                }
                let (argument, next) = parse_expression(tokens, pos)?;
                arguments.push(argument);
                if next < tokens.len() && matches!(tokens[next], Token::Comma) {
                    pos = next + 1;
                } else if next < tokens.len() && matches!(tokens[next], Token::RightParen) {
                    return Ok((Expression::FunctionCall { function, arguments }, next + 1));
                } else {
                    return Err(
                        String::from_str("a comma or closing parenthesis is missing"),
                    );
                }
            }
        },
        _ => Err(String::from_str("the expression holds an unexpected token")),
    }
}

// ---------------------------------------------------------------------
// Statements and node structure
// ---------------------------------------------------------------------

/// One classified body line, before `if` blocks are assembled.
enum LineItem {
    /// A line that adds no statement: blank, or a comment.
    Nothing,
    /// A statement that opens no block.
    Stmt(BasicStatement),
    /// The opening of an `if` construct.
    IfMarker(Expression),
    /// An `elseif` arm of the open `if` construct.
    ElseIfMarker(Expression),
    /// The `else` arm of the open `if` construct.
    ElseMarker,
    /// The end of the open `if` construct.
    EndIfMarker,
}

/// Which section of a node the line reader stands in.
enum ParseMode {
    /// Between nodes.
    Outside,
    /// Reading the `key: value` headers of a node.
    Headers,
    /// Reading the body of a node.
    Body,
}

/// Splits a line into its first word and the trimmed rest.
fn split_first_word(s: &String) -> (r: (String, String)) {
    let text = s.as_str();
    let n = text.unicode_len();
    let mut i: usize = 0;
    while i < n && is_space(text.get_char(i))
        invariant
            n == text@.len(),
            0 <= i <= n,
        decreases n - i,
    {
        i = i + 1;
    }
    let mut j = i;
    while j < n && !is_space(text.get_char(j))
        invariant
            n == text@.len(),
            i <= j <= n,
        decreases n - j,
    {
        j = j + 1;
    }
    let word = text.substring_char(i, j).to_owned();
    let rest = trim(text.substring_char(j, n));
    (word, rest)
}

/// Splits a trailing `#...` tag off a line. A tag of the form `#line:id`
/// is returned as the line's identifier tag; any other `#` tag is
/// dropped as free-form metadata.
fn split_line_tag(s: &String) -> (r: (String, Option<String>)) {
    let text = s.as_str();
    match index_of_char(text, '#') {
        None => (trim(text), None),
        Some(i) => {
            let n = text.unicode_len();
            let rest = trim(text.substring_char(0, i));
            let tag_part = text.substring_char(i, n);
            if str_starts_with(tag_part, "#line:") {
                proof {
                    reveal_strlit("#line:");
                }
                let tag_text = tag_part.substring_char(1, tag_part.unicode_len());
                let (tag, _) = split_first_word(&tag_text.to_owned());
                if tag.as_str().unicode_len() == 0 {
                    (rest, None)
                } else {
                    (rest, Some(tag))
                }
            } else {
                (rest, None)
            }
        },
    }
}

/// Collects the names of the variables a line interpolates: each
/// occurrence of `{$name}` in the text, in order.
fn find_substitutions(text: &String) -> (r: Vec<String>) {
    let s = text.as_str();
    let n = s.unicode_len();
    let mut names: Vec<String> = Vec::new();
    let mut i: usize = 0;
    while i < n
        invariant
            n == s@.len(),
            0 <= i <= n,
        decreases n - i,
    {
        if s.get_char(i) == '{' && i + 1 < n && s.get_char(i + 1) == '$' {
            let mut j = i + 2;
            while j < n && is_identifier_char(s.get_char(j))
                invariant
                    n == s@.len(),
                    i + 2 <= j <= n,
                decreases n - j,
            {
                j = j + 1;
            }
            if j > i + 2 && j < n && s.get_char(j) == '}' {
                names.push(s.substring_char(i + 2, j).to_owned());
                i = j + 1;
            } else {
                i = i + 1;
            }
        } else {
            i = i + 1;
        }
    }
    names
}

/// Reads one literal value out of the token list.
fn parse_literal(tokens: &Vec<Token>, position: usize) -> (r: Result<(Value, usize), String>)
    requires
        position <= tokens@.len(),
    ensures
        r matches Ok(p) ==> position < p.1 <= tokens@.len(),
{
    if position >= tokens.len() {
        return Err(String::from_str("a literal value is missing"));
    }
    match &tokens[position] {
        Token::Number(n) => Ok((Value::Number(*n), position + 1)),
        Token::Text(t) => Ok((Value::String(t.clone()), position + 1)),
        Token::True => Ok((Value::Boolean(true), position + 1)),
        Token::False => Ok((Value::Boolean(false), position + 1)),
        Token::Minus => {
            if position + 1 < tokens.len() {
                if let Token::Number(n) = &tokens[position + 1] {
                    let v = *n;
                    if v == i64::MIN {
                        return Err(String::from_str("number literal is too large"));
                    }
                    return Ok((Value::Number(0 - v), position + 2));
                }
            }
            Err(String::from_str("a number must follow the minus sign"))
        },
        _ => Err(String::from_str("a literal value was expected")),
    }
}

/// Classifies the text of one `<<...>>` command.
fn parse_command_text(inner: &String) -> (r: Result<LineItem, String>) {
    let (word, rest) = split_first_word(inner);
    if word == String::from_str("declare") {
        let tokens = tokenize(rest.as_str())?;
        if tokens.len() == 0 {
            return Err(String::from_str("a declaration needs a variable and a value"));
        }
        let name = match &tokens[0] {
            Token::Variable(name) => name.clone(),
            _ => {
                return Err(String::from_str("a declaration must name a variable"));
            },
        };
        if tokens.len() < 2 || !(matches!(tokens[1], Token::Assign) || matches!(
            tokens[1],
            Token::KeywordTo,
        )) {
            return Err(String::from_str("a declaration needs an equals sign or the word to"));
        }
        let (value, next) = parse_literal(&tokens, 2)?;
        if next != tokens.len() {
            return Err(String::from_str("a declaration ends after its literal value"));
        }
        Ok(LineItem::Stmt(BasicStatement::DeclareCommand { variable: name, value }))
    } else if word == String::from_str("set") {
        let tokens = tokenize(rest.as_str())?;
        if tokens.len() == 0 {
            return Err(String::from_str("a set command needs a variable and a value"));
        }
        let name = match &tokens[0] {
            Token::Variable(name) => name.clone(),
            _ => {
                return Err(String::from_str("a set command must name a variable"));
            },
        };
        if tokens.len() < 2 || !(matches!(tokens[1], Token::Assign) || matches!(
            tokens[1],
            Token::KeywordTo,
        )) {
            return Err(String::from_str("a set command needs an equals sign or the word to"));
        }
        let (expression, next) = parse_expression(&tokens, 2)?;
        if next != tokens.len() {
            return Err(String::from_str("the set command holds text after its expression"));
        }
        Ok(LineItem::Stmt(BasicStatement::SetCommand { variable: name, expression }))
    } else if word == String::from_str("jump") {
        let (destination, tail) = split_first_word(&rest);
        if destination.as_str().unicode_len() == 0 {
            return Err(String::from_str("a jump command must name its destination node"));
        }
        if tail.as_str().unicode_len() != 0 {
            return Err(String::from_str("a jump command names exactly one destination"));
        }
        Ok(LineItem::Stmt(BasicStatement::JumpCommand { destination }))
    } else if word == String::from_str("stop") {
        if rest.as_str().unicode_len() != 0 {
            return Err(String::from_str("the stop command takes nothing after it"));
        }
        Ok(LineItem::Stmt(BasicStatement::StopCommand))
    } else if word == String::from_str("if") {
        let tokens = tokenize(rest.as_str())?;
        let (condition, next) = parse_expression(&tokens, 0)?;
        if next != tokens.len() {
            return Err(String::from_str("the if command holds text after its condition"));
        }
        Ok(LineItem::IfMarker(condition))
    } else if word == String::from_str("elseif") {
        let tokens = tokenize(rest.as_str())?;
        let (condition, next) = parse_expression(&tokens, 0)?;
        if next != tokens.len() {
            return Err(String::from_str("the elseif command holds text after its condition"));
        }
        Ok(LineItem::ElseIfMarker(condition))
    } else if word == String::from_str("else") {
        if rest.as_str().unicode_len() != 0 {
            return Err(String::from_str("the else command takes nothing after it"));
        }
        Ok(LineItem::ElseMarker)
    } else if word == String::from_str("endif") {
        if rest.as_str().unicode_len() != 0 {
            return Err(String::from_str("the endif command takes nothing after it"));
        }
        Ok(LineItem::EndIfMarker)
    } else if word.as_str().unicode_len() == 0 {
        Err(String::from_str("a command must hold some text"))
    } else {
        // A command the language gives no meaning: dispatched raw to the
        // host at run time.
        Ok(LineItem::Stmt(BasicStatement::CommandText { text: inner.clone() }))
    }
}

/// Classifies one trimmed body line.
fn parse_body_line(trimmed: &String) -> (r: Result<LineItem, String>) {
    let n = trimmed.as_str().unicode_len();
    if n == 0 || str_starts_with(trimmed.as_str(), "//") {
        return Ok(LineItem::Nothing);
    }
    if str_starts_with(trimmed.as_str(), "<<") {
        let text = trimmed.as_str();
        let close = String::from_str(">>");
        if n < 4 || !(text.substring_char(n - 2, n) == close.as_str()) {
            return Err(String::from_str("a command is missing its closing delimiter"));
        }
        let inner = trim(text.substring_char(2, n - 2));
        return parse_command_text(&inner);
    }
    let (rest, line_tag) = split_line_tag(trimmed);
    if str_starts_with(rest.as_str(), "[[") {
        let text = rest.as_str();
        let m = text.unicode_len();
        let close = String::from_str("]]");
        if m < 4 || !(text.substring_char(m - 2, m) == close.as_str()) {
            return Err(String::from_str("an option is missing its closing delimiter"));
        }
        let inner = text.substring_char(2, m - 2);
        match index_of_char(inner, '|') {
            None => Err(String::from_str("an option must name its destination node")),
            Some(k) => {
                let inner_len = inner.unicode_len();
                let option_text = trim(inner.substring_char(0, k));
                let destination = trim(inner.substring_char(k + 1, inner_len));
                if destination.as_str().unicode_len() == 0 {
                    return Err(String::from_str("an option must name its destination node"));
                }
                Ok(LineItem::Stmt(BasicStatement::OptionLine {
                    text: option_text,
                    destination,
                    line_tag,
                }))
            },
        }
    } else {
        let substitutions = find_substitutions(&rest);
        Ok(LineItem::Stmt(BasicStatement::Line { text: rest, substitutions, line_tag }))
    }
}

/// Assembles classified lines into statements, closing `if` blocks; a
/// stray or unclosed block marker raises a diagnostic. `if` blocks do not
/// nest in this language.
#[verifier::loop_isolation(false)]
fn build_statements(
    items: Vec<LineItem>,
    file_name: &String,
    node_line: usize,
    raw: &String,
    diagnostics: &mut Vec<Diagnostic>,
) -> (r: Vec<Statement>)
    ensures
        extends_diagnostics(old(diagnostics)@, final(diagnostics)@),
{
    proof {
        assert(extends_diagnostics(diagnostics@, diagnostics@)) by {
            assert(diagnostics@.subrange(0, diagnostics@.len() as int) =~= diagnostics@);
        }
    }
    let mut statements: Vec<Statement> = Vec::new();
    let mut in_if = false;
    let mut in_else = false;
    let mut branches: Vec<IfBranch> = Vec::new();
    let mut condition: Option<Expression> = None;
    let mut body: Vec<BasicStatement> = Vec::new();
    let mut else_body: Vec<BasicStatement> = Vec::new();
    let mut remaining = items;
    while remaining.len() > 0
        invariant
            extends_diagnostics(old(diagnostics)@, diagnostics@),
        decreases remaining@.len(),
    {
        let ghost diagnostics_at_entry = diagnostics@;
        let item = remaining.remove(0);
        proof {
            assert(extends_diagnostics(diagnostics_at_entry, diagnostics@)) by {
                assert(diagnostics@.subrange(0, diagnostics@.len() as int) =~= diagnostics@);
            }
        }
        match item {
            LineItem::Nothing => {},
            LineItem::Stmt(statement) => {
                if in_if {
                    if in_else {
                        else_body.push(statement);
                    } else {
                        body.push(statement);
                    }
                } else {
                    statements.push(Statement::Basic(statement));
                }
            },
            LineItem::IfMarker(new_condition) => {
                if in_if {
                    push_line_error(file_name, node_line, raw, String::from_str("an if block cannot hold another if block"), diagnostics);
                    proof {
                        lemma_extends_diagnostics(old(diagnostics)@, diagnostics_at_entry, diagnostics@);
                    }
                } else {
                    in_if = true;
                    in_else = false;
                    branches = Vec::new();
                    condition = Some(new_condition);
                    body = Vec::new();
                    else_body = Vec::new();
                }
            },
            LineItem::ElseIfMarker(new_condition) => {
                if !in_if || in_else {
                    push_line_error(file_name, node_line, raw, String::from_str("an elseif arm needs an open if block before it"), diagnostics);
                    proof {
                        lemma_extends_diagnostics(old(diagnostics)@, diagnostics_at_entry, diagnostics@);
                    }
                } else {
                    let done = match condition {
                        Some(c) => c,
                        None => Expression::Literal(Value::Boolean(false)),
                    };
                    branches.push(IfBranch { condition: done, body });
                    condition = Some(new_condition);
                    body = Vec::new();
                }
            },
            LineItem::ElseMarker => {
                if !in_if || in_else {
                    push_line_error(file_name, node_line, raw, String::from_str("an else arm needs an open if block before it"), diagnostics);
                    proof {
                        lemma_extends_diagnostics(old(diagnostics)@, diagnostics_at_entry, diagnostics@);
                    }
                } else {
                    let done = match condition {
                        Some(c) => c,
                        None => Expression::Literal(Value::Boolean(false)),
                    };
                    branches.push(IfBranch { condition: done, body });
                    condition = None;
                    body = Vec::new();
                    in_else = true;
                }
            },
            LineItem::EndIfMarker => {
                if !in_if {
                    push_line_error(file_name, node_line, raw, String::from_str("an endif needs an open if block before it"), diagnostics);
                    proof {
                        lemma_extends_diagnostics(old(diagnostics)@, diagnostics_at_entry, diagnostics@);
                    }
                } else {
                    if !in_else {
                        let done = match condition {
                            Some(c) => c,
                            None => Expression::Literal(Value::Boolean(false)),
                        };
                        branches.push(IfBranch { condition: done, body });
                        body = Vec::new();
                    }
                    statements.push(Statement::If { branches, else_body });
                    branches = Vec::new();
                    else_body = Vec::new();
                    condition = None;
                    in_if = false;
                    in_else = false;
                }
            },
        }
    }
    let ghost diagnostics_after_items = diagnostics@;
    if in_if {
        push_line_error(file_name, node_line, raw, String::from_str("an if block is missing its endif"), diagnostics);
        proof {
            lemma_extends_diagnostics(old(diagnostics)@, diagnostics_after_items, diagnostics@);
        }
    }
    statements
}

/// Parses one source text into its nodes, file-level tags and
/// diagnostics. A node is a block of `key: value` headers, then `---`,
/// then body lines, then `===`. Lines of the form `#tag` outside any
/// node carry file-level tags. A syntax error in one line or node is
/// recorded as a diagnostic and does not stop the rest of the file from
/// being parsed.
pub fn parse_source(file_name: &String, source: &str) -> (r: ParseResult)
    ensures
        forall|i: int| 0 <= i < r.nodes@.len() ==> parsed_node_wf(#[trigger] r.nodes@[i]),
        has_error(r.diagnostics@) || r.nodes@.len() == node_closer_count(spec_lines(source@)),
{
    let lines = split_lines(source);
    let mut nodes: Vec<ParsedNode> = Vec::new();
    let mut file_tags: Vec<String> = Vec::new();
    let mut diagnostics: Vec<Diagnostic> = Vec::new();
    let mut mode = ParseMode::Outside;
    let mut headers: Vec<Header> = Vec::new();
    let mut items: Vec<LineItem> = Vec::new();
    let mut node_line: usize = 0;
    let mut node_raw: String = String::new();
    let mut line_number: usize = 0;
    let title_key = String::from_str("title");
    let tags_key = String::from_str("tags");
    proof {
        assert(views_of(lines@).take(0) =~= Seq::<Seq<char>>::empty());
    }
    while line_number < lines.len()
        invariant
            title_key@ == "title"@,
            tags_key@ == "tags"@,
            views_of(lines@) == spec_lines(source@),
            line_number <= lines@.len(),
            forall|i: int| 0 <= i < nodes@.len() ==> parsed_node_wf(#[trigger] nodes@[i]),
            has_error(diagnostics@) || nodes@.len() == node_closer_count(
                views_of(lines@).take(line_number as int),
            ),
        decreases lines@.len() - line_number,
    {
        let raw = &lines[line_number];
        let t = trim(raw.as_str());
        let n = t.as_str().unicode_len();
        let ghost line_view = lines@[line_number as int]@;
        let ghost seen = views_of(lines@).take(line_number as int);
        let ghost seen_next = views_of(lines@).take(line_number + 1);
        let ghost had_error = has_error(diagnostics@);
        let ghost nodes_before = nodes@.len();
        proof {
            reveal_strlit("===");
            reveal_strlit("---");
            reveal_strlit("//");
            reveal_strlit("#");
            assert(views_of(lines@)[line_number as int] == line_view);
            assert(t@ == trim_spec(line_view));
            assert(seen_next.drop_last() =~= seen);
            assert(seen_next.last() == line_view);
            assert(node_closer_count(seen_next) == node_closer_count(seen) + if closes_node(
                line_view,
            ) {
                1int
            } else {
                0int
            });
        }
        match mode {
            ParseMode::Outside => {
                if n == 0 || str_starts_with(t.as_str(), "//") {
                    // Nothing between nodes.
                    proof {
                        if closes_node(line_view) {
                            assert(t@ == "==="@);
                            if n != 0 {
                                assert(t@.subrange(0, 2)[0] == t@[0]);
                                assert(t@[0] == '/');
                                assert(t@[0] == '=');
                            }
                            assert(false);
                        }
                    }
                } else if str_starts_with(t.as_str(), "#") {
                    proof {
                        assert(t@.subrange(0, 1)[0] == t@[0]);
                        assert(t@[0] == '#');
                        if closes_node(line_view) {
                            assert(t@[0] == '=');
                            assert(false);
                        }
                    }
                    let tag_text = t.as_str().substring_char(1, n).to_owned();
                    let mut words = split_words(tag_text.as_str());
                    while words.len() > 0
                        invariant
                            has_error(diagnostics@) == had_error,
                            nodes@.len() == nodes_before,
                        decreases words@.len(),
                    {
                        file_tags.push(words.remove(0));
                    }
                } else {
                    // The first header line of a new node.
                    mode = ParseMode::Headers;
                    headers = Vec::new();
                    items = Vec::new();
                    node_line = line_number;
                    node_raw = raw.clone();
                    let ghost diagnostics_mid = diagnostics@;
                    read_header_line(&t, file_name, line_number, raw, &mut headers, &mut diagnostics);
                    proof {
                        lemma_header_line_or_error(t@, line_view, diagnostics_mid, diagnostics@);
                    }
                }
            },
            ParseMode::Headers => {
                if t == String::from_str("---") {
                    proof {
                        assert(t@ == "---"@);
                        if closes_node(line_view) {
                            assert("---"@[0] == '-');
                            assert("==="@[0] == '=');
                            assert(false);
                        }
                    }
                    mode = ParseMode::Body;
                } else if n == 0 || str_starts_with(t.as_str(), "//") {
                    // Blank lines and comments between headers.
                    proof {
                        if closes_node(line_view) {
                            assert(t@ == "==="@);
                            if n != 0 {
                                assert(t@.subrange(0, 2)[0] == t@[0]);
                                assert(t@[0] == '/');
                                assert(t@[0] == '=');
                            }
                            assert(false);
                        }
                    }
                } else {
                    let ghost diagnostics_mid = diagnostics@;
                    read_header_line(&t, file_name, line_number, raw, &mut headers, &mut diagnostics);
                    proof {
                        lemma_header_line_or_error(t@, line_view, diagnostics_mid, diagnostics@);
                    }
                }
            },
            ParseMode::Body => {
                if t == String::from_str("===") {
                    proof {
                        assert(t@ == "==="@);
                        assert(closes_node(line_view));
                    }
                    let finished_headers = headers;
                    let finished_items = items;
                    headers = Vec::new();
                    items = Vec::new();
                    let ghost diagnostics_mid = diagnostics@;
                    close_node(
                        finished_headers,
                        finished_items,
                        file_name,
                        node_line,
                        &node_raw,
                        &title_key,
                        &tags_key,
                        &mut nodes,
                        &mut diagnostics,
                    );
                    proof {
                        if had_error {
                            assert(extends_diagnostics(diagnostics_mid, diagnostics_mid)) by {
                                assert(diagnostics_mid.subrange(0, diagnostics_mid.len() as int)
                                    =~= diagnostics_mid);
                            }
                            crate::diagnostics::lemma_extends_diagnostics(
                                diagnostics_mid,
                                diagnostics_mid,
                                diagnostics@,
                            );
                        }
                    }
                    mode = ParseMode::Outside;
                } else {
                    proof {
                        assert(t@ != "==="@);
                        assert(!closes_node(line_view));
                    }
                    match parse_body_line(&t) {
                        Ok(LineItem::Nothing) => {},
                        Ok(item) => {
                            items.push(item);
                        },
                        Err(message) => {
                            push_line_error(file_name, line_number, raw, message, &mut diagnostics);
                        },
                    }
                }
            },
        }
        line_number = line_number + 1;
    }
    proof {
        assert(views_of(lines@).take(lines@.len() as int) =~= views_of(lines@));
    }
    let ghost diagnostics_done = diagnostics@;
    match mode {
        ParseMode::Outside => {},
        _ => {
            push_line_error(file_name, node_line, &node_raw, String::from_str("the last node is missing its closing delimiter"), &mut diagnostics);
            proof {
                if has_error(diagnostics_done) {
                    assert(extends_diagnostics(diagnostics_done, diagnostics_done)) by {
                        assert(diagnostics_done.subrange(0, diagnostics_done.len() as int)
                            =~= diagnostics_done);
                    }
                    crate::diagnostics::lemma_extends_diagnostics(
                        diagnostics_done,
                        diagnostics_done,
                        diagnostics@,
                    );
                }
            }
        },
    }
    ParseResult { nodes, file_tags, diagnostics }
}

/// A line without a colon raises an error when read as a header; in
/// particular the node-closing delimiter, which holds no colon, cannot
/// pass for a header silently.
proof fn lemma_header_line_or_error(
    t: Seq<char>,
    line_view: Seq<char>,
    before: Seq<Diagnostic>,
    after: Seq<Diagnostic>,
)
    requires
        t == trim_spec(line_view),
        extends_diagnostics(before, after),
        (forall|k: int| 0 <= k < t.len() ==> (#[trigger] t[k]) != ':') ==> has_error(after),
    ensures
        closes_node(line_view) ==> has_error(after),
        has_error(before) ==> has_error(after),
{
    reveal_strlit("===");
    if closes_node(line_view) {
        assert(t == "==="@);
        assert forall|k: int| 0 <= k < t.len() implies (#[trigger] t[k]) != ':' by {
            assert(t[k] == '=');
        }
    }
    assert(extends_diagnostics(before, before)) by {
        assert(before.subrange(0, before.len() as int) =~= before);
    }
    lemma_extends_diagnostics(before, before, after);
}

/// Reads one `key: value` header line into the header list; a line with
/// no colon raises a diagnostic.
fn read_header_line(
    t: &String,
    file_name: &String,
    line_number: usize,
    raw: &String,
    headers: &mut Vec<Header>,
    diagnostics: &mut Vec<Diagnostic>,
)
    ensures
        extends_diagnostics(old(diagnostics)@, final(diagnostics)@),
        (forall|k: int| 0 <= k < t@.len() ==> (#[trigger] t@[k]) != ':') ==> has_error(
            final(diagnostics)@,
        ),
{
    proof {
        assert(extends_diagnostics(diagnostics@, diagnostics@)) by {
            assert(diagnostics@.subrange(0, diagnostics@.len() as int) =~= diagnostics@);
        }
    }
    match index_of_char(t.as_str(), ':') {
        None => {
            push_line_error(file_name, line_number, raw, String::from_str("a header must be a key, a colon and a value"), diagnostics);
        },
        Some(k) => {
            let n = t.as_str().unicode_len();
            let key = trim(t.as_str().substring_char(0, k));
            let value = trim(t.as_str().substring_char(k + 1, n));
            if key.as_str().unicode_len() == 0 {
                push_line_error(file_name, line_number, raw, String::from_str("a header must have a key before its colon"), diagnostics);
            } else {
                headers.push(Header { key, value });
            }
        },
    }
}

/// Builds one node out of its headers and classified body lines and adds
/// it to the node list; a node without a `title` header raises a
/// diagnostic and yields no node.
fn close_node(
    headers: Vec<Header>,
    items: Vec<LineItem>,
    file_name: &String,
    node_line: usize,
    node_raw: &String,
    title_key: &String,
    tags_key: &String,
    nodes: &mut Vec<ParsedNode>,
    diagnostics: &mut Vec<Diagnostic>,
)
    requires
        title_key@ == "title"@,
        tags_key@ == "tags"@,
        forall|i: int| 0 <= i < old(nodes)@.len() ==> parsed_node_wf(#[trigger] old(nodes)@[i]),
    ensures
        forall|i: int| 0 <= i < final(nodes)@.len() ==> parsed_node_wf(#[trigger] final(nodes)@[i]),
        extends_diagnostics(old(diagnostics)@, final(diagnostics)@),
        final(nodes)@.len() == old(nodes)@.len() + 1 || (final(nodes)@.len() == old(nodes)@.len()
            && has_error(final(diagnostics)@)),
{
    proof {
        assert(extends_diagnostics(diagnostics@, diagnostics@)) by {
            assert(diagnostics@.subrange(0, diagnostics@.len() as int) =~= diagnostics@);
        }
    }
    let name = match find_first_header(&headers, title_key) {
        Some(title) => title.clone(),
        None => {
            push_line_error(file_name, node_line, node_raw, String::from_str("a node needs a title header"), diagnostics);
            return ;
        },
    };
    let tags = match find_first_header(&headers, tags_key) {
        Some(value) => split_words(value.as_str()),
        None => Vec::new(),
    };
    let body = build_statements(items, file_name, node_line, node_raw, diagnostics);
    let node = ParsedNode { name, headers, tags, body, line: node_line };
    proof {
        if node_tags_spec(node.headers@) == Seq::<Seq<char>>::empty() {
            assert(views_of(node.tags@) =~= node_tags_spec(node.headers@));
        }
        assert(parsed_node_wf(node));
    }
    nodes.push(node);
}

} // verus!
