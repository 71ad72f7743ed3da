//! The lexer: turns raw source text into a sequence of tokens, one line at a
//! time. Words accumulate until a delimiter; `#` starts a comment that runs to
//! the end of the line; `"` delimits a string literal; parens are matched
//! within each line; `=` and `,` are single-character tokens; each line that
//! produced tokens ends with an `Eol` token.
//!
//! The behaviour is specified by a character-level state machine
//! (`lex_char` / `lex_fold` / `spec_tokenize`) and `tokenize` is proved to
//! compute exactly that function.

use crate::text::{char_is_whitespace, chars_to_string, is_whitespace_char};
use crate::token::{Token, TokenList, TokenModel, TokenType};
use vstd::prelude::*;

verus! {

/// Where the lexer stands inside a line.
#[derive(Debug, Clone, Copy, PartialEq, Eq, Structural)]
pub enum LexMode {
    /// Between tokens or inside a bare word.
    Normal,
    /// Inside a `"`-delimited string literal.
    InString,
    /// After `#`, discarding the rest of the line.
    InComment,
}

/// The lexer's full state, one value per consumed character.
pub ghost struct LexState {
    pub mode: LexMode,
    pub line: u32,
    pub cur: Seq<char>,
    pub depth: int,
    pub toks: Seq<TokenModel>,
    pub err: Option<Seq<char>>,
}

/// The models of a token list.
pub open spec fn models(s: Seq<Token>) -> Seq<TokenModel> {
    s.map_values(|t: Token| t@)
}

pub open spec fn msg_mismatched_paren() -> Seq<char> {
    "Error: mismatched paren"@
}

pub open spec fn msg_misplaced_delim() -> Seq<char> {
    "Error: misplaced string delim"@
}

pub open spec fn lex_init() -> LexState {
    LexState {
        mode: LexMode::Normal,
        line: 1,
        cur: Seq::empty(),
        depth: 0,
        toks: Seq::empty(),
        err: None,
    }
}

/// Line numbers stop growing at the largest `u32` instead of wrapping.
pub open spec fn sat_inc(line: u32) -> u32 {
    if line < 0xFFFF_FFFFu32 {
        (line + 1) as u32
    } else {
        line
    }
}

/// Emits the pending word, if any, as a `String` token.
pub open spec fn lex_flush(st: LexState) -> LexState {
    if st.cur.len() > 0 {
        LexState {
            cur: Seq::empty(),
            toks: st.toks.push(TokenModel { kind: TokenType::String, line: st.line, text: st.cur }),
            ..st
        }
    } else {
        st
    }
}

/// Emits a token that carries no text.
pub open spec fn lex_push(st: LexState, kind: TokenType) -> LexState {
    LexState {
        toks: st.toks.push(TokenModel { kind, line: st.line, text: Seq::empty() }),
        ..st
    }
}

/// End of a source line: open parens are an error; otherwise the pending word
/// is flushed and an `Eol` token is emitted unless the line produced nothing
/// and the previous token was already `Eol` (or no token exists yet).
pub open spec fn lex_line_end(st: LexState) -> LexState {
    if st.depth > 0 {
        LexState { err: Some(msg_mismatched_paren()), ..st }
    } else {
        let st1 = lex_flush(st);
        let st2 = if st1.toks.len() > 0 && st1.toks.last().kind != TokenType::Eol {
            lex_push(st1, TokenType::Eol)
        } else {
            st1
        };
        LexState { line: sat_inc(st2.line), mode: LexMode::Normal, ..st2 }
    }
}

/// One character of input. Only called on states without an error.
pub open spec fn lex_char(st: LexState, c: char) -> LexState {
    match st.mode {
        LexMode::InComment => if c == '\n' {
            lex_line_end(st)
        } else {
            st
        },
        LexMode::InString => if c == '"' {
            let st1 = LexState {
                cur: Seq::empty(),
                toks: st.toks.push(
                    TokenModel { kind: TokenType::String, line: st.line, text: st.cur },
                ),
                ..st
            };
            LexState { mode: LexMode::Normal, ..lex_push(st1, TokenType::StringDelim) }
        } else if c == '\n' {
            LexState { err: Some(msg_misplaced_delim()), ..st }
        } else {
            LexState { cur: st.cur.push(c), ..st }
        },
        LexMode::Normal => if c == '\n' {
            lex_line_end(st)
        } else if c == '#' {
            LexState { mode: LexMode::InComment, ..st }
        } else if c == '"' {
            LexState { mode: LexMode::InString, ..lex_push(lex_flush(st), TokenType::StringDelim) }
        } else if c == '(' {
            let st1 = lex_push(lex_flush(st), TokenType::OpenParen);
            LexState { depth: st1.depth + 1, ..st1 }
        } else if c == ')' {
            if st.depth == 0 {
                LexState { err: Some(msg_mismatched_paren()), ..st }
            } else {
                let st1 = lex_push(lex_flush(st), TokenType::CloseParen);
                LexState { depth: st1.depth - 1, ..st1 }
            }
        } else if c == '=' {
            lex_push(lex_flush(st), TokenType::Equal)
        } else if c == ',' {
            lex_push(lex_flush(st), TokenType::Sep)
        } else if char_is_whitespace(c) {
            lex_flush(st)
        } else {
            LexState { cur: st.cur.push(c), ..st }
        },
    }
}

/// The state after the first `n` characters of `s`.
pub open spec fn lex_fold(s: Seq<char>, n: int) -> LexState
    decreases n,
{
    if n <= 0 {
        lex_init()
    } else {
        let st = lex_fold(s, n - 1);
        if st.err is Some {
            st
        } else {
            lex_char(st, s[n - 1])
        }
    }
}

/// End of input acts like the end of a final line; an unterminated string
/// literal is an error.
pub open spec fn lex_finish(st: LexState) -> LexState {
    if st.mode == LexMode::InString {
        LexState { err: Some(msg_misplaced_delim()), ..st }
    } else {
        lex_line_end(st)
    }
}

/// What `tokenize` returns, as a function of the input characters.
pub open spec fn spec_tokenize(s: Seq<char>) -> Result<Seq<TokenModel>, Seq<char>> {
    let st = lex_fold(s, s.len() as int);
    if st.err is Some {
        Err(st.err.unwrap())
    } else {
        let fin = lex_finish(st);
        if fin.err is Some {
            Err(fin.err.unwrap())
        } else {
            Ok(fin.toks)
        }
    }
}

/// Well-formedness of an emitted token sequence with respect to the current
/// line counter: no `Error` kind, and line numbers between 1 and the counter,
/// in non-decreasing order.
pub open spec fn toks_wf(toks: Seq<TokenModel>, line: u32) -> bool {
    &&& forall|i: int|
        0 <= i < toks.len() ==> (#[trigger] toks[i].kind) != TokenType::Error && 1 <= toks[i].line
            <= line
    &&& forall|i: int, j: int|
        0 <= i <= j < toks.len() ==> #[trigger] toks[i].line <= #[trigger] toks[j].line
}

pub open spec fn st_wf(st: LexState) -> bool {
    &&& 1 <= st.line
    &&& 0 <= st.depth
    &&& toks_wf(st.toks, st.line)
}

proof fn lemma_push_wf(toks: Seq<TokenModel>, line: u32, t: TokenModel)
    requires
        toks_wf(toks, line),
        t.kind != TokenType::Error,
        t.line == line,
        1 <= line,
    ensures
        toks_wf(toks.push(t), line),
{
    let ext = toks.push(t);
    assert(ext.len() == toks.len() + 1);
    assert forall|i: int| 0 <= i < ext.len() implies (#[trigger] ext[i].kind) != TokenType::Error
        && 1 <= ext[i].line <= line by {
        if i < toks.len() {
            assert(toks[i].kind != TokenType::Error);
            assert(ext[i] == toks[i]);
        } else {
            assert(ext[i] == t);
        }
    }
    assert forall|i: int, j: int| 0 <= i <= j < ext.len() implies ext[i].line <= ext[j].line by {
        if j < toks.len() {
            assert(ext[i] == toks[i]);
            assert(ext[j] == toks[j]);
            assert(toks[i].line <= toks[j].line);
        } else if i < toks.len() {
            assert(toks[i].kind != TokenType::Error);
            assert(ext[i] == toks[i]);
            assert(ext[j] == t);
            assert(toks[i].line <= line);
        } else {
            assert(ext[i] == t);
            assert(ext[j] == t);
        }
    }
}

proof fn lemma_flush_wf(st: LexState)
    requires
        st_wf(st),
    ensures
        st_wf(lex_flush(st)),
        lex_flush(st).line == st.line,
        lex_flush(st).depth == st.depth,
{
    if st.cur.len() > 0 {
        lemma_push_wf(
            st.toks,
            st.line,
            TokenModel { kind: TokenType::String, line: st.line, text: st.cur },
        );
    }
}

proof fn lemma_line_end_wf(st: LexState)
    requires
        st_wf(st),
    ensures
        st_wf(lex_line_end(st)),
        st.line <= lex_line_end(st).line,
{
    assert(sat_inc(st.line) >= st.line);
    if st.depth > 0 {
    } else {
        lemma_flush_wf(st);
        let st1 = lex_flush(st);
        if st1.toks.len() > 0 && st1.toks.last().kind != TokenType::Eol {
            lemma_push_wf(
                st1.toks,
                st1.line,
                TokenModel { kind: TokenType::Eol, line: st1.line, text: Seq::empty() },
            );
            let st2 = lex_push(st1, TokenType::Eol);
            assert(toks_wf(st2.toks, st2.line));
            assert(toks_wf(st2.toks, sat_inc(st2.line))) by {
                lemma_wf_weaken(st2.toks, st2.line, sat_inc(st2.line));
            }
        } else {
            assert(toks_wf(st1.toks, sat_inc(st1.line))) by {
                lemma_wf_weaken(st1.toks, st1.line, sat_inc(st1.line));
            }
        }
    }
}

proof fn lemma_wf_weaken(toks: Seq<TokenModel>, a: u32, b: u32)
    requires
        toks_wf(toks, a),
        a <= b,
    ensures
        toks_wf(toks, b),
{
}

proof fn lemma_lex_char_wf(st: LexState, c: char)
    requires
        st_wf(st),
    ensures
        st_wf(lex_char(st, c)),
        st.line <= lex_char(st, c).line,
{
    assert(sat_inc(st.line) >= st.line);
    match st.mode {
        LexMode::InComment => {
            if c == '\n' {
                lemma_line_end_wf(st);
            }
        },
        LexMode::InString => {
            if c == '"' {
                lemma_push_wf(
                    st.toks,
                    st.line,
                    TokenModel { kind: TokenType::String, line: st.line, text: st.cur },
                );
                let st1 = LexState {
                    cur: Seq::empty(),
                    toks: st.toks.push(
                        TokenModel { kind: TokenType::String, line: st.line, text: st.cur },
                    ),
                    ..st
                };
                lemma_push_wf(
                    st1.toks,
                    st1.line,
                    TokenModel { kind: TokenType::StringDelim, line: st1.line, text: Seq::empty() },
                );
            }
        },
        LexMode::Normal => {
            if c == '\n' {
                lemma_line_end_wf(st);
            } else if c == '#' {
            } else if c == '"' || c == '(' || (c == ')' && st.depth != 0) || c == '=' || c == ',' {
                lemma_flush_wf(st);
                let st1 = lex_flush(st);
                let kind = if c == '"' {
                    TokenType::StringDelim
                } else if c == '(' {
                    TokenType::OpenParen
                } else if c == ')' {
                    TokenType::CloseParen
                } else if c == '=' {
                    TokenType::Equal
                } else {
                    TokenType::Sep
                };
                lemma_push_wf(
                    st1.toks,
                    st1.line,
                    TokenModel { kind, line: st1.line, text: Seq::empty() },
                );
            } else if char_is_whitespace(c) {
                lemma_flush_wf(st);
            }
        },
    }
}

/// Once an error appears, the lexer state never changes again.
proof fn lemma_lex_fold_err_stable(s: Seq<char>, k: int, m: int)
    requires
        0 <= k <= m,
        lex_fold(s, k).err is Some,
    ensures
        lex_fold(s, m) == lex_fold(s, k),
    decreases m - k,
{
    if m > k {
        lemma_lex_fold_err_stable(s, k, m - 1);
    }
}

proof fn lemma_lex_fold_wf(s: Seq<char>, n: int)
    ensures
        st_wf(lex_fold(s, n)),
    decreases n,
{
    if n <= 0 {
    } else {
        lemma_lex_fold_wf(s, n - 1);
        let st = lex_fold(s, n - 1);
        if st.err is None {
            lemma_lex_char_wf(st, s[n - 1]);
        }
    }
}

/// Lexer round-trip guarantee: whenever `tokenize` succeeds (that is, the
/// input holds no unterminated string literal and no mismatched paren), the
/// token list holds no `Error` token, and the 1-indexed line numbers on the
/// emitted tokens are monotonically non-decreasing.
pub proof fn lemma_tokenize_wellformed(s: Seq<char>)
    ensures
        spec_tokenize(s) matches Ok(toks) ==> {
            &&& forall|i: int|
                0 <= i < toks.len() ==> (#[trigger] toks[i].kind) != TokenType::Error && 1
                    <= toks[i].line
            &&& forall|i: int, j: int| 0 <= i <= j < toks.len() ==> toks[i].line <= toks[j].line
        },
{
    lemma_lex_fold_wf(s, s.len() as int);
    let st = lex_fold(s, s.len() as int);
    if st.err is None {
        if st.mode == LexMode::InString {
        } else {
            lemma_line_end_wf(st);
        }
    }
}

proof fn lemma_models_push(s: Seq<Token>, t: Token)
    ensures
        models(s.push(t)) == models(s).push(t@),
{
    assert(models(s.push(t)) =~= models(s).push(t@));
}

fn flush_word(toks: &mut Vec<Token>, cur: &mut Vec<char>, line: u32)
    ensures
        ({
            let st = LexState {
                mode: LexMode::Normal,
                line,
                cur: old(cur)@,
                depth: 0,
                toks: models(old(toks)@),
                err: None,
            };
            let st1 = lex_flush(st);
            models(final (toks)@) == st1.toks && final (cur)@ == st1.cur
        }),
{
    if cur.len() > 0 {
        let word = chars_to_string(cur);
        let t = Token::new_token(TokenType::String, line, word.as_str());
        proof {
            lemma_models_push(toks@, t);
        }
        toks.push(t);
        cur.clear();
    }
}

/// Converts source text into a list of tokens, or fails with the message of
/// the first lexical error: an unterminated string literal, a closing paren
/// with no matching open paren, or a line end while parens are still open.
///
/// The result is exactly `spec_tokenize` of the input characters.
pub fn tokenize(in_str: &str) -> (r: Result<TokenList, String>)
    ensures
        match r {
            Ok(toks) => spec_tokenize(in_str@) == Ok::<Seq<TokenModel>, Seq<char>>(models(toks@)),
            Err(e) => spec_tokenize(in_str@) == Err::<Seq<TokenModel>, Seq<char>>(e@),
        },
{
    let n = in_str.unicode_len();
    let mut mode = LexMode::Normal;
    let mut line: u32 = 1;
    let mut cur: Vec<char> = Vec::new();
    let mut depth: usize = 0;
    let mut toks: Vec<Token> = Vec::new();

    let mut i: usize = 0;
    proof {
        assert(cur@ =~= Seq::<char>::empty());
        assert(models(toks@) =~= Seq::<TokenModel>::empty());
    }
    while i < n
        invariant
            n == in_str@.len(),
            i <= n,
            depth <= i,
            lex_fold(in_str@, i as int) == (LexState {
                mode,
                line,
                cur: cur@,
                depth: depth as int,
                toks: models(toks@),
                err: None,
            }),
        decreases n - i,
    {
        let ghost st = lex_fold(in_str@, i as int);
        let c = in_str.get_char(i);
        let ghost target = lex_char(st, c);
        match mode {
            LexMode::InComment => {
                if c == '\n' {
                    if depth > 0 {
                        proof {
                            assert(lex_fold(in_str@, i as int + 1) == lex_char(st, c));
                            lemma_lex_fold_err_stable(in_str@, i as int + 1, n as int);
                        }
                        return Err(String::from_str("Error: mismatched paren"));
                    }
                    flush_word(&mut toks, &mut cur, line);
                    if toks.len() > 0 && *toks[toks.len() - 1].get_type() != TokenType::Eol {
                        let t = Token::new_empty_token(TokenType::Eol, line);
                        proof {
                            lemma_models_push(toks@, t);
                        }
                        toks.push(t);
                    }
                    if line < 0xFFFF_FFFFu32 {
                        line = line + 1;
                    }
                    mode = LexMode::Normal;
                }
            },
            LexMode::InString => {
                if c == '"' {
                    let body = chars_to_string(&cur);
                    let t = Token::new_token(TokenType::String, line, body.as_str());
                    proof {
                        lemma_models_push(toks@, t);
                    }
                    toks.push(t);
                    cur.clear();
                    let t2 = Token::new_empty_token(TokenType::StringDelim, line);
                    proof {
                        lemma_models_push(toks@, t2);
                    }
                    toks.push(t2);
                    mode = LexMode::Normal;
                } else if c == '\n' {
                    proof {
                        assert(lex_fold(in_str@, i as int + 1) == lex_char(st, c));
                        lemma_lex_fold_err_stable(in_str@, i as int + 1, n as int);
                    }
                    return Err(String::from_str("Error: misplaced string delim"));
                } else {
                    cur.push(c);
                }
            },
            LexMode::Normal => {
                if c == '\n' {
                    if depth > 0 {
                        proof {
                            assert(lex_fold(in_str@, i as int + 1) == lex_char(st, c));
                            lemma_lex_fold_err_stable(in_str@, i as int + 1, n as int);
                        }
                        return Err(String::from_str("Error: mismatched paren"));
                    }
                    flush_word(&mut toks, &mut cur, line);
                    if toks.len() > 0 && *toks[toks.len() - 1].get_type() != TokenType::Eol {
                        let t = Token::new_empty_token(TokenType::Eol, line);
                        proof {
                            lemma_models_push(toks@, t);
                        }
                        toks.push(t);
                    }
                    if line < 0xFFFF_FFFFu32 {
                        line = line + 1;
                    }
                } else if c == '#' {
                    mode = LexMode::InComment;
                } else if c == '"' {
                    flush_word(&mut toks, &mut cur, line);
                    let t = Token::new_empty_token(TokenType::StringDelim, line);
                    proof {
                        lemma_models_push(toks@, t);
                    }
                    toks.push(t);
                    mode = LexMode::InString;
                } else if c == '(' {
                    flush_word(&mut toks, &mut cur, line);
                    let t = Token::new_empty_token(TokenType::OpenParen, line);
                    proof {
                        lemma_models_push(toks@, t);
                    }
                    toks.push(t);
                    depth = depth + 1;
                } else if c == ')' {
                    if depth == 0 {
                        proof {
                            assert(lex_fold(in_str@, i as int + 1) == lex_char(st, c));
                            lemma_lex_fold_err_stable(in_str@, i as int + 1, n as int);
                        }
                        return Err(String::from_str("Error: mismatched paren"));
                    }
                    flush_word(&mut toks, &mut cur, line);
                    let t = Token::new_empty_token(TokenType::CloseParen, line);
                    proof {
                        lemma_models_push(toks@, t);
                    }
                    toks.push(t);
                    depth = depth - 1;
                } else if c == '=' {
                    flush_word(&mut toks, &mut cur, line);
                    let t = Token::new_empty_token(TokenType::Equal, line);
                    proof {
                        lemma_models_push(toks@, t);
                    }
                    toks.push(t);
                } else if c == ',' {
                    flush_word(&mut toks, &mut cur, line);
                    let t = Token::new_empty_token(TokenType::Sep, line);
                    proof {
                        lemma_models_push(toks@, t);
                    }
                    toks.push(t);
                } else if is_whitespace_char(c) {
                    flush_word(&mut toks, &mut cur, line);
                } else {
                    cur.push(c);
                }
            },
        }
        i = i + 1;
        proof {
            assert(lex_fold(in_str@, i as int) == target);
        }
    }
    // End of input: an open string literal is an error, open parens are an
    // error, and a final partial line is closed off.
    let ghost st = lex_fold(in_str@, n as int);
    if matches!(mode, LexMode::InString) {
        return Err(String::from_str("Error: misplaced string delim"));
    }
    if depth > 0 {
        return Err(String::from_str("Error: mismatched paren"));
    }
    flush_word(&mut toks, &mut cur, line);
    if toks.len() > 0 && *toks[toks.len() - 1].get_type() != TokenType::Eol {
        let t = Token::new_empty_token(TokenType::Eol, line);
        proof {
            lemma_models_push(toks@, t);
        }
        toks.push(t);
    }
    proof {
        assert(spec_tokenize(in_str@) == Ok::<Seq<TokenModel>, Seq<char>>(models(toks@)));
    }
    Ok(toks)
}

} // verus!
