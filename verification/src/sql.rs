use vstd::prelude::*;
use vstd::string::{StrSliceExecFns, StringExecFns};

use crate::errors::LexerError;
use crate::numbers::is_digit;
use crate::text::{char_index, ci_eq, find_char, is_space, lemma_char_index, str_eq_ci};

verus! {

/// The token kinds of the SQL scanner: keywords, literals, identifiers
/// and punctuation, with an explicit end-of-input marker.
#[derive(Debug)]
pub enum TokenType {
    Select,
    From,
    Where,
    String(String),
    Number(String),
    Identifier(String),
    Asterisk,
    Equal,
    NotEqual,
    GreaterThan,
    LessThan,
    Comma,
    Semicolon,
    EOF,
}

/// The mathematical value of a token kind: payloads as character
/// sequences.
pub enum TokenV {
    Select,
    From,
    Where,
    StrLit(Seq<char>),
    Number(Seq<char>),
    Identifier(Seq<char>),
    Asterisk,
    Equal,
    NotEqual,
    GreaterThan,
    LessThan,
    Comma,
    Semicolon,
    Eof,
}

impl View for TokenType {
    type V = TokenV;

    open spec fn view(&self) -> TokenV {
        match self {
            TokenType::Select => TokenV::Select,
            TokenType::From => TokenV::From,
            TokenType::Where => TokenV::Where,
            TokenType::String(s) => TokenV::StrLit(s@),
            TokenType::Number(s) => TokenV::Number(s@),
            TokenType::Identifier(s) => TokenV::Identifier(s@),
            TokenType::Asterisk => TokenV::Asterisk,
            TokenType::Equal => TokenV::Equal,
            TokenType::NotEqual => TokenV::NotEqual,
            TokenType::GreaterThan => TokenV::GreaterThan,
            TokenType::LessThan => TokenV::LessThan,
            TokenType::Comma => TokenV::Comma,
            TokenType::Semicolon => TokenV::Semicolon,
            TokenType::EOF => TokenV::Eof,
        }
    }
}

/// One scanned token. Position tracking is not implemented: every token
/// reports line one, column one.
pub struct Token {
    kind: TokenType,
    line: usize,
    column: usize,
}

impl View for Token {
    type V = TokenV;

    /// A token is its kind's value.
    closed spec fn view(&self) -> TokenV {
        self.kind@
    }
}

impl Token {
    pub fn new(kind: TokenType) -> (t: Self)
        ensures
            t@ == kind@,
    {
        Self { kind, line: 1, column: 1 }
    }

    /// The token's kind.
    pub fn kind(&self) -> (r: &TokenType)
        ensures
            r@ == self@,
    {
        &self.kind
    }
}

/// Whether a character may start an identifier or keyword.
pub open spec fn is_ident_start(c: char) -> bool {
    ('a' <= c && c <= 'z') || ('A' <= c && c <= 'Z') || c == '_'
}

/// Whether a character may continue an identifier or keyword.
pub open spec fn is_ident_char(c: char) -> bool {
    is_ident_start(c) || is_digit(c)
}

fn is_ident_start_char(c: char) -> (r: bool)
    ensures
        r == is_ident_start(c),
{
    (c >= 'a' && c <= 'z') || (c >= 'A' && c <= 'Z') || c == '_'
}

fn is_ident_char_exec(c: char) -> (r: bool)
    ensures
        r == is_ident_char(c),
{
    is_ident_start_char(c) || (c >= '0' && c <= '9')
}

/// The length of the leading run of decimal digits.
pub open spec fn digit_run(s: Seq<char>) -> int
    decreases s.len(),
{
    if s.len() == 0 {
        0
    } else if is_digit(s[0]) {
        1 + digit_run(s.drop_first())
    } else {
        0
    }
}

/// The length of the leading run of identifier characters.
pub open spec fn ident_run(s: Seq<char>) -> int
    decreases s.len(),
{
    if s.len() == 0 {
        0
    } else if is_ident_char(s[0]) {
        1 + ident_run(s.drop_first())
    } else {
        0
    }
}

proof fn lemma_digit_run_unique(s: Seq<char>, k: int)
    requires
        0 <= k <= s.len(),
        forall|i: int| 0 <= i < k ==> is_digit(#[trigger] s[i]),
        k < s.len() ==> !is_digit(s[k]),
    ensures
        digit_run(s) == k,
    decreases s.len(),
{
    if s.len() == 0 {
    } else if is_digit(s[0]) {
        assert(k > 0);
        let t = s.drop_first();
        assert(forall|i: int| 0 <= i < k - 1 ==> is_digit(#[trigger] t[i]));
        lemma_digit_run_unique(t, k - 1);
    } else {
        assert(k == 0);
    }
}

proof fn lemma_ident_run_unique(s: Seq<char>, k: int)
    requires
        0 <= k <= s.len(),
        forall|i: int| 0 <= i < k ==> is_ident_char(#[trigger] s[i]),
        k < s.len() ==> !is_ident_char(s[k]),
    ensures
        ident_run(s) == k,
    decreases s.len(),
{
    if s.len() == 0 {
    } else if is_ident_char(s[0]) {
        assert(k > 0);
        let t = s.drop_first();
        assert(forall|i: int| 0 <= i < k - 1 ==> is_ident_char(#[trigger] t[i]));
        lemma_ident_run_unique(t, k - 1);
    } else {
        assert(k == 0);
    }
}

/// Prepends a token to a tokenization outcome.
pub open spec fn cons_token(t: TokenV, rest: Option<Seq<TokenV>>) -> Option<Seq<TokenV>> {
    match rest {
        Some(v) => Some(seq![t] + v),
        None => None,
    }
}

/// The keyword or identifier a word scans to: the three keywords are
/// recognised without regard to ASCII case.
pub open spec fn word_token(w: Seq<char>) -> TokenV {
    if ci_eq(w, "select"@) {
        TokenV::Select
    } else if ci_eq(w, "from"@) {
        TokenV::From
    } else if ci_eq(w, "where"@) {
        TokenV::Where
    } else {
        TokenV::Identifier(w)
    }
}

/// The tokens of an input, ending in the end-of-input marker, or nothing
/// when the input holds a lone `!`, an unterminated string literal, or a
/// character no token can start with.
pub open spec fn spec_tokenize(s: Seq<char>) -> Option<Seq<TokenV>>
    decreases s.len(),
{
    if s.len() == 0 {
        Some(seq![TokenV::Eof])
    } else if is_space(s[0]) {
        spec_tokenize(s.drop_first())
    } else if s[0] == '*' {
        cons_token(TokenV::Asterisk, spec_tokenize(s.drop_first()))
    } else if s[0] == ',' {
        cons_token(TokenV::Comma, spec_tokenize(s.drop_first()))
    } else if s[0] == ';' {
        cons_token(TokenV::Semicolon, spec_tokenize(s.drop_first()))
    } else if s[0] == '=' {
        cons_token(TokenV::Equal, spec_tokenize(s.drop_first()))
    } else if s[0] == '>' {
        cons_token(TokenV::GreaterThan, spec_tokenize(s.drop_first()))
    } else if s[0] == '<' {
        cons_token(TokenV::LessThan, spec_tokenize(s.drop_first()))
    } else if s[0] == '!' {
        if s.len() >= 2 && s[1] == '=' {
            cons_token(TokenV::NotEqual, spec_tokenize(s.skip(2)))
        } else {
            None
        }
    } else if s[0] == '\'' {
        let rest = s.drop_first();
        let close = char_index(rest, '\'');
        if 0 <= close < rest.len() {
            cons_token(
                TokenV::StrLit(rest.take(close)),
                spec_tokenize(rest.skip(close + 1)),
            )
        } else {
            None
        }
    } else if is_digit(s[0]) {
        let k = digit_run(s);
        if 1 <= k <= s.len() {
            cons_token(TokenV::Number(s.take(k)), spec_tokenize(s.skip(k)))
        } else {
            None
        }
    } else if is_ident_start(s[0]) {
        let k = ident_run(s);
        if 1 <= k <= s.len() {
            cons_token(word_token(s.take(k)), spec_tokenize(s.skip(k)))
        } else {
            None
        }
    } else {
        None
    }
}

/// The views of a token list.
pub open spec fn token_views(tokens: Seq<Token>) -> Seq<TokenV> {
    tokens.map_values(|t: Token| t@)
}

fn invalid(text: &str) -> (e: LexerError)
    ensures
        e matches LexerError::InvalidToken { .. },
{
    LexerError::InvalidToken { message: String::from_str(text) }
}

/// Scans a SQL string into tokens: keywords (in any ASCII case),
/// identifiers, integer number literals, single-quoted strings, the
/// comparison and punctuation characters, and a final end-of-input
/// token. Fails exactly on a `!` not followed by `=`, an unterminated
/// string literal, or a character no token starts with.
#[verifier::loop_isolation(false)]
#[verifier::rlimit(60)]
pub fn tokenize(sql: &str) -> (r: Result<Vec<Token>, LexerError>)
    ensures
        match r {
            Ok(tokens) => spec_tokenize(sql@) == Some(token_views(tokens@)),
            Err(e) => spec_tokenize(sql@) is None && e matches LexerError::InvalidToken { .. },
        },
{
    let n = sql.unicode_len();
    let mut tokens: Vec<Token> = Vec::new();
    let mut pos: usize = 0;
    proof {
        assert(sql@.skip(0) =~= sql@);
        assert(token_views(tokens@) =~= Seq::<TokenV>::empty());
        match spec_tokenize(sql@) {
            Some(rest) => {
                assert(token_views(tokens@) + rest =~= rest);
            },
            None => {},
        }
    }
    loop
        invariant
            0 <= pos <= n,
            n == sql@.len(),
            spec_tokenize(sql@) == (match spec_tokenize(sql@.skip(pos as int)) {
                Some(rest) => Some(token_views(tokens@) + rest),
                None => None,
            }),
        decreases n - pos,
    {
        let ghost suffix = sql@.skip(pos as int);
        if pos == n {
            proof {
                assert(suffix =~= Seq::<char>::empty());
            }
            tokens.push(Token::new(TokenType::EOF));
            proof {
                assert(token_views(tokens@) =~= token_views(tokens@.drop_last()) + seq![
                    TokenV::Eof,
                ]);
            }
            return Ok(tokens);
        }
        let c = sql.get_char(pos);
        proof {
            assert(suffix[0] == c);
            assert(suffix.drop_first() =~= sql@.skip(pos + 1));
        }
        if crate::text::is_space_char(c) {
            pos += 1;
            continue ;
        }
        let simple: Option<TokenType> = match c {
            '*' => Some(TokenType::Asterisk),
            ',' => Some(TokenType::Comma),
            ';' => Some(TokenType::Semicolon),
            '=' => Some(TokenType::Equal),
            '>' => Some(TokenType::GreaterThan),
            '<' => Some(TokenType::LessThan),
            _ => None,
        };
        if let Some(kind) = simple {
            let ghost kv = kind@;
            tokens.push(Token::new(kind));
            pos += 1;
            proof {
                assert(spec_tokenize(suffix) == cons_token(kv, spec_tokenize(sql@.skip(pos as int))));
                assert(token_views(tokens@) =~= token_views(tokens@.drop_last()) + seq![kv]);
                lemma_cons_assoc(token_views(tokens@.drop_last()), kv, sql@.skip(pos as int));
            }
            continue ;
        }
        if c == '!' {
            if pos + 1 < n && sql.get_char(pos + 1) == '=' {
                proof {
                    assert(suffix.len() >= 2 && suffix[1] == '=');
                    assert(suffix.skip(2) =~= sql@.skip(pos + 2));
                }
                tokens.push(Token::new(TokenType::NotEqual));
                pos += 2;
                proof {
                    assert(token_views(tokens@) =~= token_views(tokens@.drop_last()) + seq![
                        TokenV::NotEqual,
                    ]);
                    lemma_cons_assoc(
                        token_views(tokens@.drop_last()),
                        TokenV::NotEqual,
                        sql@.skip(pos as int),
                    );
                }
                continue ;
            } else {
                proof {
                    if pos + 1 < n {
                        assert(suffix.len() >= 2 && suffix[1] != '=');
                    } else {
                        assert(suffix.len() == 1);
                    }
                }
                return Err(invalid("expected '=' after '!'"));
            }
        }
        if c == '\'' {
            let rest = sql.substring_char(pos + 1, n);
            proof {
                assert(rest@ =~= suffix.drop_first());
                lemma_char_index(rest@, '\'');
            }
            let close = find_char(rest, '\'');
            let m = rest.unicode_len();
            if close == m {
                return Err(invalid("unterminated string literal"));
            }
            let text = rest.substring_char(0, close);
            proof {
                assert(text@ =~= suffix.drop_first().take(close as int));
                assert(rest@.skip(close + 1) =~= sql@.skip(pos + 1 + close + 1));
            }
            tokens.push(Token::new(TokenType::String(text.to_owned())));
            pos = pos + 1 + close + 1;
            proof {
                assert(token_views(tokens@) =~= token_views(tokens@.drop_last()) + seq![
                    TokenV::StrLit(suffix.drop_first().take(close as int)),
                ]);
                lemma_cons_assoc(
                    token_views(tokens@.drop_last()),
                    TokenV::StrLit(suffix.drop_first().take(close as int)),
                    sql@.skip(pos as int),
                );
            }
            continue ;
        }
        if c >= '0' && c <= '9' {
            let mut end = pos + 1;
            while end < n && crate::numbers::is_digit_char(sql.get_char(end))
                invariant
                    pos < end <= n,
                    forall|i: int| pos <= i < end ==> is_digit(#[trigger] sql@[i]),
                decreases n - end,
            {
                end += 1;
            }
            proof {
                assert(forall|i: int|
                    0 <= i < end - pos ==> is_digit(#[trigger] suffix[i]) && suffix[i] == sql@[pos
                        + i]);
                lemma_digit_run_unique(suffix, end - pos);
            }
            let text = sql.substring_char(pos, end);
            proof {
                assert(text@ =~= suffix.take(end - pos));
                assert(suffix.skip(end - pos) =~= sql@.skip(end as int));
            }
            tokens.push(Token::new(TokenType::Number(text.to_owned())));
            let ghost kv = TokenV::Number(suffix.take(end - pos));
            pos = end;
            proof {
                assert(token_views(tokens@) =~= token_views(tokens@.drop_last()) + seq![kv]);
                lemma_cons_assoc(token_views(tokens@.drop_last()), kv, sql@.skip(pos as int));
            }
            continue ;
        }
        if is_ident_start_char(c) {
            let mut end = pos + 1;
            while end < n && is_ident_char_exec(sql.get_char(end))
                invariant
                    pos < end <= n,
                    forall|i: int| pos <= i < end ==> is_ident_char(#[trigger] sql@[i]),
                decreases n - end,
            {
                end += 1;
            }
            proof {
                assert(forall|i: int|
                    0 <= i < end - pos ==> is_ident_char(#[trigger] suffix[i]) && suffix[i]
                        == sql@[pos + i]);
                lemma_ident_run_unique(suffix, end - pos);
            }
            let word = sql.substring_char(pos, end);
            proof {
                assert(word@ =~= suffix.take(end - pos));
                assert(suffix.skip(end - pos) =~= sql@.skip(end as int));
            }
            let kind: TokenType = if str_eq_ci(word, "select") {
                TokenType::Select
            } else if str_eq_ci(word, "from") {
                TokenType::From
            } else if str_eq_ci(word, "where") {
                TokenType::Where
            } else {
                TokenType::Identifier(word.to_owned())
            };
            let ghost kv = word_token(suffix.take(end - pos));
            proof {
                assert(kind@ == kv);
            }
            tokens.push(Token::new(kind));
            pos = end;
            proof {
                assert(token_views(tokens@) =~= token_views(tokens@.drop_last()) + seq![kv]);
                lemma_cons_assoc(token_views(tokens@.drop_last()), kv, sql@.skip(pos as int));
            }
            continue ;
        }
        return Err(invalid("unexpected character"));
    }
}

/// Concatenation distributes over prepending one token.
proof fn lemma_cons_assoc(acc: Seq<TokenV>, t: TokenV, rest_input: Seq<char>)
    ensures
        (match spec_tokenize(rest_input) {
            Some(rest) => Some((acc + seq![t]) + rest),
            None => None::<Seq<TokenV>>,
        }) == (match cons_token(t, spec_tokenize(rest_input)) {
            Some(with_t) => Some(acc + with_t),
            None => None::<Seq<TokenV>>,
        }),
{
    match spec_tokenize(rest_input) {
        Some(rest) => {
            assert((acc + seq![t]) + rest =~= acc + (seq![t] + rest));
        },
        None => {},
    }
}

} // verus!
