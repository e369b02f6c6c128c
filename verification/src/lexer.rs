//! The tokenizer: source text to a flat sequence of positioned tokens.
//!
//! Offsets are character indices into the original input, inclusive on
//! both ends.  Whitespace separates tokens and is skipped.  A number is a
//! maximal run of digits with at most one decimal point — a second point
//! ends the number and begins a new token.  A word starting with a letter
//! or underscore is the keyword `let` or an identifier.  Any other
//! character aborts tokenization with `InvalidCharacter`.  A terminal end
//! marker is always appended.

use vstd::prelude::*;

use crate::error::{Error, ErrorModel};
use crate::number::{f32_parse, parse_number, spec_decimal_text};
use crate::token::{
    AddOperator, ExpOperator, MulOperator, Token, TokenModel, TokenValue, TokenValueModel,
};

verus! {

/// The whitespace characters the tokenizer skips.
pub open spec fn is_space(c: char) -> bool {
    c == ' ' || c == '\n' || c == '\t' || c == '\r'
}

/// ASCII digits.
pub open spec fn is_digit(c: char) -> bool {
    '0' <= c <= '9'
}

/// What may start an identifier: an ASCII letter or an underscore.
pub open spec fn is_word_start(c: char) -> bool {
    ('a' <= c <= 'z') || ('A' <= c <= 'Z') || c == '_'
}

/// What may continue an identifier: a letter, digit or underscore.
pub open spec fn is_word_char(c: char) -> bool {
    is_word_start(c) || is_digit(c)
}

/// Where the digit run that began before `j` ends: characters continue it
/// while they are digits, or a first decimal point.
pub open spec fn num_scan(s: Seq<char>, j: int, seen_point: bool) -> int
    decreases s.len() - j when j <= s.len()
{
    if j >= s.len() {
        j
    } else if is_digit(s[j]) {
        num_scan(s, j + 1, seen_point)
    } else if s[j] == '.' && !seen_point {
        num_scan(s, j + 1, true)
    } else {
        j
    }
}

/// Where the identifier run that began before `j` ends.
pub open spec fn word_scan(s: Seq<char>, j: int) -> int
    decreases s.len() - j when j <= s.len()
{
    if j < s.len() && is_word_char(s[j]) {
        word_scan(s, j + 1)
    } else {
        j
    }
}

/// A token model from its parts.
pub open spec fn tok(value: TokenValueModel, src: Seq<char>, start: int, end: int) -> TokenModel {
    TokenModel { value, src, start, end }
}

/// The end marker appended to every token sequence.
pub open spec fn eof_tok(n: int) -> TokenModel {
    tok(TokenValueModel::Eof, "EOF"@, n, n)
}

/// Puts one token in front of a tokenization result.
pub open spec fn prepend(
    t: TokenModel,
    res: Result<Seq<TokenModel>, ErrorModel>,
) -> Result<Seq<TokenModel>, ErrorModel> {
    match res {
        Ok(rest) => Ok(seq![t] + rest),
        Err(e) => Err(e),
    }
}

/// The tokens of `s` from character position `i` on.
pub open spec fn spec_tokenize_from(s: Seq<char>, i: int) -> Result<Seq<TokenModel>, ErrorModel>
    decreases s.len() - i when 0 <= i <= s.len() via spec_tokenize_from_decreases
{
    if i >= s.len() {
        Ok(seq![eof_tok(s.len() as int)])
    } else {
        let c = s[i];
        if is_space(c) {
            spec_tokenize_from(s, i + 1)
        } else if c == '(' {
            prepend(
                tok(TokenValueModel::OpenBracket, seq![c], i, i),
                spec_tokenize_from(s, i + 1),
            )
        } else if c == ')' {
            prepend(
                tok(TokenValueModel::CloseBracket, seq![c], i, i),
                spec_tokenize_from(s, i + 1),
            )
        } else if c == '+' {
            prepend(
                tok(TokenValueModel::AddOperator(AddOperator::Add), seq![c], i, i),
                spec_tokenize_from(s, i + 1),
            )
        } else if c == '-' {
            prepend(
                tok(TokenValueModel::AddOperator(AddOperator::Sub), seq![c], i, i),
                spec_tokenize_from(s, i + 1),
            )
        } else if c == '=' {
            prepend(
                tok(TokenValueModel::Equals, seq![c], i, i),
                spec_tokenize_from(s, i + 1),
            )
        } else if c == '$' {
            prepend(
                tok(TokenValueModel::LastResult, seq![c], i, i),
                spec_tokenize_from(s, i + 1),
            )
        } else if c == '%' {
            prepend(
                tok(TokenValueModel::MulOperator(MulOperator::Mod), seq![c], i, i),
                spec_tokenize_from(s, i + 1),
            )
        } else if c == '*' {
            if i + 1 < s.len() && s[i + 1] == '*' {
                prepend(
                    tok(
                        TokenValueModel::ExpOperator(ExpOperator::Power),
                        s.subrange(i, i + 2),
                        i,
                        i + 1,
                    ),
                    spec_tokenize_from(s, i + 2),
                )
            } else {
                prepend(
                    tok(TokenValueModel::MulOperator(MulOperator::Mul), seq![c], i, i),
                    spec_tokenize_from(s, i + 1),
                )
            }
        } else if c == '/' {
            if i + 1 < s.len() && s[i + 1] == '/' {
                prepend(
                    tok(
                        TokenValueModel::ExpOperator(ExpOperator::Root),
                        s.subrange(i, i + 2),
                        i,
                        i + 1,
                    ),
                    spec_tokenize_from(s, i + 2),
                )
            } else {
                prepend(
                    tok(TokenValueModel::MulOperator(MulOperator::Div), seq![c], i, i),
                    spec_tokenize_from(s, i + 1),
                )
            }
        } else if is_digit(c) {
            let end = num_scan(s, i + 1, false);
            let src = s.subrange(i, end);
            prepend(
                tok(TokenValueModel::Number(f32_parse(src)), src, i, end - 1),
                spec_tokenize_from(s, end),
            )
        } else if is_word_start(c) {
            let end = word_scan(s, i + 1);
            let src = s.subrange(i, end);
            let value = if src == "let"@ {
                TokenValueModel::Let
            } else {
                TokenValueModel::Identifier(src)
            };
            prepend(tok(value, src, i, end - 1), spec_tokenize_from(s, end))
        } else {
            Err(ErrorModel::InvalidCharacter { character: c, position: i })
        }
    }
}

#[via_fn]
proof fn spec_tokenize_from_decreases(s: Seq<char>, i: int) {
    if 0 <= i && i < s.len() {
        if is_digit(s[i]) {
            lemma_num_scan(s, i + 1, false);
        }
        if is_word_start(s[i]) {
            lemma_word_scan(s, i + 1);
        }
    }
}

/// The tokens of the whole input.
pub open spec fn spec_tokenize(s: Seq<char>) -> Result<Seq<TokenModel>, ErrorModel> {
    spec_tokenize_from(s, 0)
}

/// The spec-level views of a token sequence.
pub open spec fn token_views(tokens: Seq<Token>) -> Seq<TokenModel> {
    Seq::new(tokens.len(), |k: int| tokens[k]@)
}

/// The digit run is never empty, stays in bounds, and its text — digits
/// with at most one decimal point behind the leading digit — parses as a
/// decimal number.
proof fn lemma_num_scan(s: Seq<char>, j: int, seen_point: bool)
    requires
        0 <= j <= s.len(),
    ensures
        j <= num_scan(s, j, seen_point) <= s.len(),
        forall|k: int|
            j <= k < num_scan(s, j, seen_point) ==> (is_digit(#[trigger] s[k]) || s[k] == '.'),
        seen_point ==> forall|k: int| j <= k < num_scan(s, j, seen_point) ==> is_digit(
            #[trigger] s[k],
        ),
        forall|k1: int, k2: int|
            j <= k1 < k2 < num_scan(s, j, seen_point) && #[trigger] s[k1] == '.'
                ==> #[trigger] s[k2] != '.',
    decreases s.len() - j,
{
    if j < s.len() {
        if is_digit(s[j]) {
            lemma_num_scan(s, j + 1, seen_point);
        } else if s[j] == '.' && !seen_point {
            lemma_num_scan(s, j + 1, true);
        }
    }
}

/// The word run stays in bounds.
proof fn lemma_word_scan(s: Seq<char>, j: int)
    requires
        0 <= j <= s.len(),
    ensures
        j <= word_scan(s, j) <= s.len(),
    decreases s.len() - j,
{
    if j < s.len() && is_word_char(s[j]) {
        lemma_word_scan(s, j + 1);
    }
}

/// The text of a number token parses as a decimal number.
proof fn lemma_number_text(s: Seq<char>, i: int)
    requires
        0 <= i < s.len(),
        is_digit(s[i]),
    ensures
        i + 1 <= num_scan(s, i + 1, false) <= s.len(),
        spec_decimal_text(s.subrange(i, num_scan(s, i + 1, false))),
{
    lemma_num_scan(s, i + 1, false);
    let end = num_scan(s, i + 1, false);
    let sub = s.subrange(i, end);
    assert(sub.len() == end - i);
    assert(sub[0] == s[i]);
    assert forall|k: int| 0 <= k < sub.len() implies ('0' <= #[trigger] sub[k] <= '9'
        || sub[k] == '.') by {
        assert(sub[k] == s[i + k]);
        if k > 0 {
            assert(is_digit(s[i + k]) || s[i + k] == '.');
        }
    }
    assert forall|k1: int, k2: int|
        0 <= k1 < k2 < sub.len() && #[trigger] sub[k1] == '.' implies #[trigger] sub[k2]
        != '.' by {
        assert(sub[k1] == s[i + k1]);
        assert(sub[k2] == s[i + k2]);
        assert(i + 1 <= i + k1 < i + k2 < end);
    }
}

/// Joins the tokens already produced with the tokenization of the rest.
pub open spec fn combine(
    done: Seq<TokenModel>,
    res: Result<Seq<TokenModel>, ErrorModel>,
) -> Result<Seq<TokenModel>, ErrorModel> {
    match res {
        Ok(rest) => Ok(done + rest),
        Err(e) => Err(e),
    }
}

/// Moving a token from the front of the rest to the back of the finished
/// part does not change the joined whole.
proof fn lemma_step(
    done: Seq<TokenModel>,
    t: TokenModel,
    rest: Result<Seq<TokenModel>, ErrorModel>,
)
    ensures
        combine(done, prepend(t, rest)) == combine(done.push(t), rest),
{
    match rest {
        Ok(more) => {
            assert(done.push(t) =~= done + seq![t]);
            assert((done + seq![t]) + more =~= done + (seq![t] + more));
        },
        Err(_) => {},
    }
}

/// Appending a token appends its view.
proof fn lemma_views_push(tokens: Seq<Token>, t: Token)
    ensures
        token_views(tokens.push(t)) =~= token_views(tokens).push(t@),
{
}

/// Finds the end of the digit run beginning before `start`.
#[verifier::loop_isolation(false)]
fn scan_number(input: &str, n: usize, start: usize) -> (j: usize)
    requires
        n == input@.len(),
        start <= n,
    ensures
        start <= j <= n,
        j == num_scan(input@, start as int, false),
{
    let ghost s = input@;
    let mut j = start;
    let mut seen_point = false;
    loop
        invariant
            start <= j <= n,
            num_scan(s, start as int, false) == num_scan(s, j as int, seen_point),
        decreases n - j,
    {
        if j >= n {
            return j;
        }
        let c = input.get_char(j);
        if '0' <= c && c <= '9' {
            j = j + 1;
        } else if c == '.' && !seen_point {
            seen_point = true;
            j = j + 1;
        } else {
            return j;
        }
    }
}

/// Finds the end of the identifier run beginning before `start`.
#[verifier::loop_isolation(false)]
fn scan_word(input: &str, n: usize, start: usize) -> (j: usize)
    requires
        n == input@.len(),
        start <= n,
    ensures
        start <= j <= n,
        j == word_scan(input@, start as int),
{
    let ghost s = input@;
    let mut j = start;
    loop
        invariant
            start <= j <= n,
            word_scan(s, start as int) == word_scan(s, j as int),
        decreases n - j,
    {
        if j >= n {
            return j;
        }
        let c = input.get_char(j);
        if ('a' <= c && c <= 'z') || ('A' <= c && c <= 'Z') || c == '_' || ('0' <= c && c <= '9') {
            j = j + 1;
        } else {
            return j;
        }
    }
}

/// Converts source text into a flat sequence of positioned tokens, always
/// ending with the end marker, or reports the first invalid character.
#[verifier::loop_isolation(false)]
pub fn tokenize(input: &str) -> (r: Result<Vec<Token>, Error>)
    ensures
        match r {
            Ok(tokens) => spec_tokenize(input@) == Ok::<Seq<TokenModel>, ErrorModel>(
                token_views(tokens@),
            ),
            Err(e) => spec_tokenize(input@) == Err::<Seq<TokenModel>, ErrorModel>(e@),
        },
{
    let ghost s = input@;
    let n = input.unicode_len();
    let mut tokens: Vec<Token> = Vec::new();
    let mut i: usize = 0;
    while i < n
        invariant
            i <= n,
            spec_tokenize(s) == combine(token_views(tokens@), spec_tokenize_from(s, i as int)),
        decreases n - i,
    {
        let ghost done = tokens@;
        let c = input.get_char(i);
        if c == ' ' || c == '\n' || c == '\t' || c == '\r' {
            i = i + 1;
        } else if c == '(' {
            let src = input.substring_char(i, i + 1).to_owned();
            tokens.push(Token::new(TokenValue::OpenBracket, src, i, i));
            proof {
                assert(s.subrange(i as int, i + 1) =~= seq![c]);
                lemma_views_push(done, tokens@.last());
                lemma_step(
                    token_views(done),
                    tokens@.last()@,
                    spec_tokenize_from(s, i + 1),
                );
            }
            i = i + 1;
        } else if c == ')' {
            let src = input.substring_char(i, i + 1).to_owned();
            tokens.push(Token::new(TokenValue::CloseBracket, src, i, i));
            proof {
                assert(s.subrange(i as int, i + 1) =~= seq![c]);
                lemma_views_push(done, tokens@.last());
                lemma_step(
                    token_views(done),
                    tokens@.last()@,
                    spec_tokenize_from(s, i + 1),
                );
            }
            i = i + 1;
        } else if c == '+' {
            let src = input.substring_char(i, i + 1).to_owned();
            tokens.push(Token::new(TokenValue::AddOperator(AddOperator::Add), src, i, i));
            proof {
                assert(s.subrange(i as int, i + 1) =~= seq![c]);
                lemma_views_push(done, tokens@.last());
                lemma_step(
                    token_views(done),
                    tokens@.last()@,
                    spec_tokenize_from(s, i + 1),
                );
            }
            i = i + 1;
        } else if c == '-' {
            let src = input.substring_char(i, i + 1).to_owned();
            tokens.push(Token::new(TokenValue::AddOperator(AddOperator::Sub), src, i, i));
            proof {
                assert(s.subrange(i as int, i + 1) =~= seq![c]);
                lemma_views_push(done, tokens@.last());
                lemma_step(
                    token_views(done),
                    tokens@.last()@,
                    spec_tokenize_from(s, i + 1),
                );
            }
            i = i + 1;
        } else if c == '=' {
            let src = input.substring_char(i, i + 1).to_owned();
            tokens.push(Token::new(TokenValue::Equals, src, i, i));
            proof {
                assert(s.subrange(i as int, i + 1) =~= seq![c]);
                lemma_views_push(done, tokens@.last());
                lemma_step(
                    token_views(done),
                    tokens@.last()@,
                    spec_tokenize_from(s, i + 1),
                );
            }
            i = i + 1;
        } else if c == '$' {
            let src = input.substring_char(i, i + 1).to_owned();
            tokens.push(Token::new(TokenValue::LastResult, src, i, i));
            proof {
                assert(s.subrange(i as int, i + 1) =~= seq![c]);
                lemma_views_push(done, tokens@.last());
                lemma_step(
                    token_views(done),
                    tokens@.last()@,
                    spec_tokenize_from(s, i + 1),
                );
            }
            i = i + 1;
        } else if c == '%' {
            let src = input.substring_char(i, i + 1).to_owned();
            tokens.push(Token::new(TokenValue::MulOperator(MulOperator::Mod), src, i, i));
            proof {
                assert(s.subrange(i as int, i + 1) =~= seq![c]);
                lemma_views_push(done, tokens@.last());
                lemma_step(
                    token_views(done),
                    tokens@.last()@,
                    spec_tokenize_from(s, i + 1),
                );
            }
            i = i + 1;
        } else if c == '*' {
            if i + 1 < n && input.get_char(i + 1) == '*' {
                let src = input.substring_char(i, i + 2).to_owned();
                tokens.push(Token::new(TokenValue::ExpOperator(ExpOperator::Power), src, i, i + 1));
                proof {
                    lemma_views_push(done, tokens@.last());
                    lemma_step(
                        token_views(done),
                        tokens@.last()@,
                        spec_tokenize_from(s, i + 2),
                    );
                }
                i = i + 2;
            } else {
                let src = input.substring_char(i, i + 1).to_owned();
                tokens.push(Token::new(TokenValue::MulOperator(MulOperator::Mul), src, i, i));
                proof {
                    assert(s.subrange(i as int, i + 1) =~= seq![c]);
                    lemma_views_push(done, tokens@.last());
                    lemma_step(
                        token_views(done),
                        tokens@.last()@,
                        spec_tokenize_from(s, i + 1),
                    );
                }
                i = i + 1;
            }
        } else if c == '/' {
            if i + 1 < n && input.get_char(i + 1) == '/' {
                let src = input.substring_char(i, i + 2).to_owned();
                tokens.push(Token::new(TokenValue::ExpOperator(ExpOperator::Root), src, i, i + 1));
                proof {
                    lemma_views_push(done, tokens@.last());
                    lemma_step(
                        token_views(done),
                        tokens@.last()@,
                        spec_tokenize_from(s, i + 2),
                    );
                }
                i = i + 2;
            } else {
                let src = input.substring_char(i, i + 1).to_owned();
                tokens.push(Token::new(TokenValue::MulOperator(MulOperator::Div), src, i, i));
                proof {
                    assert(s.subrange(i as int, i + 1) =~= seq![c]);
                    lemma_views_push(done, tokens@.last());
                    lemma_step(
                        token_views(done),
                        tokens@.last()@,
                        spec_tokenize_from(s, i + 1),
                    );
                }
                i = i + 1;
            }
        } else if '0' <= c && c <= '9' {
            let j = scan_number(input, n, i + 1);
            let sub = input.substring_char(i, j);
            proof {
                lemma_number_text(s, i as int);
            }
            let bits = match parse_number(sub) {
                Some(b) => b,
                None => {
                    return Err(Error::Fatal("Cannot parse number!"));
                },
            };
            let src = sub.to_owned();
            tokens.push(Token::new(TokenValue::Number(bits), src, i, j - 1));
            proof {
                lemma_views_push(done, tokens@.last());
                lemma_step(token_views(done), tokens@.last()@, spec_tokenize_from(s, j as int));
            }
            i = j;
        } else if ('a' <= c && c <= 'z') || ('A' <= c && c <= 'Z') || c == '_' {
            let j = scan_word(input, n, i + 1);
            let src = input.substring_char(i, j).to_owned();
            let keyword: String = "let".to_owned();
            let value = if src.eq(&keyword) {
                TokenValue::Let
            } else {
                TokenValue::Identifier(src.clone())
            };
            tokens.push(Token::new(value, src, i, j - 1));
            proof {
                lemma_views_push(done, tokens@.last());
                lemma_step(token_views(done), tokens@.last()@, spec_tokenize_from(s, j as int));
            }
            i = j;
        } else {
            return Err(Error::InvalidCharacter(c, i));
        }
    }
    let ghost done = tokens@;
    let src = "EOF".to_owned();
    tokens.push(Token::new(TokenValue::Eof, src, n, n));
    proof {
        lemma_views_push(done, tokens@.last());
        assert(token_views(done) + seq![eof_tok(n as int)] =~= token_views(tokens@));
    }
    Ok(tokens)
}

/// A run of word characters reaches the end of the text.
proof fn lemma_word_scan_full(s: Seq<char>, j: int)
    requires
        0 <= j <= s.len(),
        forall|k: int| j <= k < s.len() ==> is_word_char(#[trigger] s[k]),
    ensures
        word_scan(s, j) == s.len(),
    decreases s.len() - j,
{
    if j < s.len() {
        lemma_word_scan_full(s, j + 1);
    }
}

/// A run of digits with at most one decimal point reaches the end of the
/// text.
proof fn lemma_num_scan_full(s: Seq<char>, j: int, seen_point: bool)
    requires
        0 <= j <= s.len(),
        forall|k: int| j <= k < s.len() ==> (is_digit(#[trigger] s[k]) || s[k] == '.'),
        seen_point ==> forall|k: int| j <= k < s.len() ==> is_digit(#[trigger] s[k]),
        forall|k1: int, k2: int|
            j <= k1 < k2 < s.len() && #[trigger] s[k1] == '.' ==> #[trigger] s[k2] != '.',
    ensures
        num_scan(s, j, seen_point) == s.len(),
    decreases s.len() - j,
{
    if j < s.len() {
        if is_digit(s[j]) {
            lemma_num_scan_full(s, j + 1, seen_point);
        } else {
            lemma_num_scan_full(s, j + 1, true);
        }
    }
}

/// Text that is one whole identifier tokenizes to exactly that identifier
/// token — carrying the full text and spanning all of its characters —
/// followed by the end marker.
pub proof fn law_identifier_token(s: Seq<char>)
    requires
        s.len() > 0,
        is_word_start(s[0]),
        forall|k: int| 0 <= k < s.len() ==> is_word_char(#[trigger] s[k]),
        s != "let"@,
    ensures
        spec_tokenize(s) == Ok::<Seq<TokenModel>, ErrorModel>(
            seq![
                tok(TokenValueModel::Identifier(s), s, 0, s.len() - 1),
                eof_tok(s.len() as int),
            ],
        ),
{
    lemma_word_scan_full(s, 1);
    assert(s.subrange(0, s.len() as int) =~= s);
    assert(spec_tokenize_from(s, s.len() as int) == Ok::<Seq<TokenModel>, ErrorModel>(
        seq![eof_tok(s.len() as int)],
    ));
    assert(seq![tok(TokenValueModel::Identifier(s), s, 0, s.len() - 1)] + seq![
        eof_tok(s.len() as int),
    ] =~= seq![tok(TokenValueModel::Identifier(s), s, 0, s.len() - 1), eof_tok(s.len() as int)]);
}

/// Text that is one whole number literal tokenizes to exactly that number
/// token, whose value is the correctly rounded parse of the text, followed
/// by the end marker.
pub proof fn law_number_token(s: Seq<char>)
    requires
        s.len() > 0,
        is_digit(s[0]),
        forall|k: int| 0 <= k < s.len() ==> (is_digit(#[trigger] s[k]) || s[k] == '.'),
        forall|k1: int, k2: int|
            0 <= k1 < k2 < s.len() && #[trigger] s[k1] == '.' ==> #[trigger] s[k2] != '.',
    ensures
        spec_tokenize(s) == Ok::<Seq<TokenModel>, ErrorModel>(
            seq![
                tok(TokenValueModel::Number(f32_parse(s)), s, 0, s.len() - 1),
                eof_tok(s.len() as int),
            ],
        ),
{
    lemma_num_scan_full(s, 1, false);
    assert(s.subrange(0, s.len() as int) =~= s);
    assert(spec_tokenize_from(s, s.len() as int) == Ok::<Seq<TokenModel>, ErrorModel>(
        seq![eof_tok(s.len() as int)],
    ));
    assert(seq![tok(TokenValueModel::Number(f32_parse(s)), s, 0, s.len() - 1)] + seq![
        eof_tok(s.len() as int),
    ] =~= seq![
        tok(TokenValueModel::Number(f32_parse(s)), s, 0, s.len() - 1),
        eof_tok(s.len() as int),
    ]);
}

} // verus!
