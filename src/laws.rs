//! Properties of the lexer as a whole, proved from the lexical rules.
use vstd::prelude::*;
use crate::error::ErrorView;
use crate::rules::{
    blanks_end, block_end, digits_end, escape_of, is_alpha, is_digit, is_word_char, lex_from,
    line_end, scan_token, string_body, token_step, trivia_end, word_end, word_token,
};
use crate::token::{operator_of, TokenView};

verus! {

proof fn lemma_word_end_all(s: Seq<char>, i: int)
    requires
        0 <= i <= s.len(),
        forall|k: int| i <= k < s.len() ==> is_word_char(#[trigger] s[k]),
    ensures
        word_end(s, i) == s.len(),
    decreases s.len() - i,
{
    if i < s.len() {
        lemma_word_end_all(s, i + 1);
    }
}

proof fn lemma_lex_at_end(file: Seq<char>, s: Seq<char>)
    ensures
        lex_from(file, s, s.len() as int) == Ok::<Seq<TokenView>, ErrorView>(seq![TokenView::Eof]),
{
    assert(blanks_end(s, s.len() as int) == s.len());
    assert(trivia_end(file, s, s.len() as int) == Ok::<int, ErrorView>(s.len() as int));
    assert(token_step(file, s, s.len() as int) == scan_token(s, s.len() as int));
}

proof fn lemma_blanks_end_bounds(s: Seq<char>, i: int)
    requires
        0 <= i <= s.len(),
    ensures
        i <= blanks_end(s, i) <= s.len(),
    decreases s.len() - i,
{
    if i < s.len() {
        lemma_blanks_end_bounds(s, i + 1);
    }
}

proof fn lemma_line_end_bounds(s: Seq<char>, i: int)
    requires
        0 <= i <= s.len(),
    ensures
        i <= line_end(s, i) <= s.len(),
    decreases s.len() - i,
{
    if i < s.len() {
        lemma_line_end_bounds(s, i + 1);
    }
}

proof fn lemma_block_end_bounds(s: Seq<char>, i: int, depth: nat)
    requires
        0 <= i <= s.len(),
    ensures
        block_end(s, i, depth) matches Some(k) ==> i <= k <= s.len(),
    decreases s.len() - i,
{
    if depth > 0 && i < s.len() {
        if s[i] == '/' && i + 1 < s.len() && s[i + 1] == '*' {
            lemma_block_end_bounds(s, i + 2, depth + 1);
        } else if s[i] == '*' && i + 1 < s.len() && s[i + 1] == '/' {
            lemma_block_end_bounds(s, i + 2, (depth - 1) as nat);
        } else {
            lemma_block_end_bounds(s, i + 1, depth);
        }
    }
}

proof fn lemma_trivia_end_bounds(file: Seq<char>, s: Seq<char>, i: int)
    requires
        0 <= i <= s.len(),
    ensures
        trivia_end(file, s, i) matches Ok(j) ==> i <= j <= s.len(),
    decreases s.len() - i,
{
    let j = blanks_end(s, i);
    lemma_blanks_end_bounds(s, i);
    if j + 1 < s.len() && s[j] == '/' && s[j + 1] == '/' {
        lemma_line_end_bounds(s, j + 2);
        let k = line_end(s, j + 2);
        if i < k <= s.len() {
            lemma_trivia_end_bounds(file, s, k);
        }
    } else if j + 1 < s.len() && s[j] == '/' && s[j + 1] == '*' {
        lemma_block_end_bounds(s, j + 2, 1);
        if let Some(k) = block_end(s, j + 2, 1) {
            if i < k <= s.len() {
                lemma_trivia_end_bounds(file, s, k);
            }
        }
    }
}

proof fn lemma_word_end_bounds(s: Seq<char>, i: int)
    requires
        0 <= i <= s.len(),
    ensures
        i <= word_end(s, i) <= s.len(),
    decreases s.len() - i,
{
    if i < s.len() {
        lemma_word_end_bounds(s, i + 1);
    }
}

proof fn lemma_digits_end_bounds(s: Seq<char>, i: int, dot: bool)
    requires
        0 <= i <= s.len(),
    ensures
        i <= digits_end(s, i, dot) <= s.len(),
    decreases s.len() - i,
{
    if i < s.len() {
        lemma_digits_end_bounds(s, i + 1, dot);
        lemma_digits_end_bounds(s, i + 1, true);
    }
}

proof fn lemma_string_body_bounds(s: Seq<char>, i: int, acc: Seq<char>)
    requires
        0 <= i <= s.len(),
    ensures
        string_body(s, i, acc) matches Ok((t, k)) ==> i < k <= s.len(),
    decreases s.len() - i,
{
    if i < s.len() && s[i] != '"' && s[i] != '\n' {
        if s[i] == '\\' {
            if i + 1 < s.len() {
                if let Some(c) = escape_of(s[i + 1], true) {
                    lemma_string_body_bounds(s, i + 2, acc.push(c));
                }
            }
        } else {
            lemma_string_body_bounds(s, i + 1, acc.push(s[i]));
        }
    }
}

/// One step from inside the source either reaches `Eof` or reads a token
/// that moves forward, and stays within the source.
proof fn lemma_step_progress(file: Seq<char>, s: Seq<char>, i: int)
    requires
        0 <= i <= s.len(),
    ensures
        token_step(file, s, i) matches Ok((t, k)) ==> (t is Eof || i < k <= s.len()),
{
    lemma_trivia_end_bounds(file, s, i);
    if let Ok(j) = trivia_end(file, s, i) {
        if j < s.len() {
            if is_digit(s[j]) {
                lemma_digits_end_bounds(s, j + 1, false);
                assert(digits_end(s, j, false) == digits_end(s, j + 1, false));
                lemma_word_end_bounds(s, digits_end(s, j, false));
            } else if s[j] == '_' || is_alpha(s[j]) {
                assert(is_word_char(s[j]));
                lemma_word_end_bounds(s, j + 1);
                assert(word_end(s, j) == word_end(s, j + 1));
            } else if s[j] == '"' {
                lemma_string_body_bounds(s, j + 1, Seq::empty());
            }
        }
    }
}

/// A text made only of letters, digits and `_`, that does not start with a
/// digit, reads as one token followed by `Eof`: the keyword it spells, the
/// boolean `true` or `false`, or else an identifier holding the text.
pub proof fn law_word_text(file: Seq<char>, s: Seq<char>)
    requires
        s.len() > 0,
        s[0] == '_' || is_alpha(s[0]),
        forall|k: int| 0 <= k < s.len() ==> is_word_char(#[trigger] s[k]),
    ensures
        lex_from(file, s, 0) == Ok::<Seq<TokenView>, ErrorView>(
            seq![word_token(s), TokenView::Eof],
        ),
{
    assert(blanks_end(s, 0) == 0);
    assert(trivia_end(file, s, 0) == Ok::<int, ErrorView>(0));
    lemma_word_end_all(s, 0);
    assert(s.subrange(0, s.len() as int) =~= s);
    assert(!is_digit(s[0]));
    assert(scan_token(s, 0) == Ok::<(TokenView, int), ErrorView>((word_token(s), s.len() as int)));
    lemma_lex_at_end(file, s);
    assert(seq![word_token(s)] + seq![TokenView::Eof] =~= seq![word_token(s), TokenView::Eof]);
}

/// A character beyond ASCII where a token would start, outside any comment
/// or literal, makes lexing fail with an illegal-character error naming it.
pub proof fn law_non_ascii_is_illegal(file: Seq<char>, s: Seq<char>, j: int)
    requires
        trivia_end(file, s, 0) == Ok::<int, ErrorView>(j),
        0 <= j < s.len(),
        (s[j] as u32) > 127,
    ensures
        lex_from(file, s, 0) == Err::<Seq<TokenView>, ErrorView>(
            ErrorView::IllegalCharacter(s[j]),
        ),
{
    assert(operator_of(s[j]) is None);
    assert(scan_token(s, j) == Err::<(TokenView, int), ErrorView>(
        ErrorView::IllegalCharacter(s[j]),
    ));
}

/// Every sequence of tokens ends with `Eof`, and `Eof` stands nowhere else.
pub proof fn law_single_eof_last(file: Seq<char>, s: Seq<char>, i: int)
    requires
        0 <= i <= s.len(),
        lex_from(file, s, i) is Ok,
    ensures
        ({
            let ts = lex_from(file, s, i)->Ok_0;
            &&& ts.len() >= 1
            &&& ts.last() is Eof
            &&& forall|k: int| 0 <= k < ts.len() - 1 ==> !(ts[k] is Eof)
        }),
    decreases s.len() - i,
{
    let ts = lex_from(file, s, i)->Ok_0;
    lemma_step_progress(file, s, i);
    match token_step(file, s, i) {
        Err(e) => {},
        Ok((t, k)) => {
            if t is Eof {
            } else if i < k <= s.len() {
                law_single_eof_last(file, s, k);
                let rest = lex_from(file, s, k)->Ok_0;
                assert(ts == seq![t] + rest);
                assert forall|n: int| 0 <= n < ts.len() - 1 implies !(ts[n] is Eof) by {
                    if n > 0 {
                        assert(ts[n] == rest[n - 1]);
                    }
                }
            } else {
                assert(false);
            }
        },
    }
}

} // verus!
