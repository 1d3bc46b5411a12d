//! From an integer's decimal text to its node and back: what the tokenizer and the
//! parser together make of a number literal that stands as a statement.

use vstd::prelude::*;
use crate::lexer::{
    SpecToken, SpecTokens, decimal_text, digits_end, is_digit_char, lemma_decimal_text, lex_from,
    tokenize_spec,
};
use crate::parser::{
    EndToken, SpecNode, SpecSyntaxError, examine_numbers_spec, parse_spec, put_into_nodes_spec,
    statement_spec,
};

verus! {

/// A run of digits that a character of another kind follows ends at that character.
proof fn lemma_digits_end_at(text: Seq<char>, pos: int, end: int)
    requires
        0 <= pos <= end < text.len(),
        forall|i: int| pos <= i < end ==> is_digit_char(#[trigger] text[i]),
        !is_digit_char(text[end]),
    ensures
        digits_end(text, pos) == end,
    decreases end - pos,
{
    if pos < end {
        lemma_digits_end_at(text, pos + 1, end);
    }
}

/// The token stream of a number literal that stands as a statement.
pub open spec fn literal_stream(n: i64) -> Seq<SpecTokens> {
    seq![
        SpecTokens { token: SpecToken::Number(n), line: 1 },
        SpecTokens { token: SpecToken::Semicolon, line: 1 },
        SpecTokens { token: SpecToken::Eof, line: 1 },
    ]
}

/// For every integer `n` from 1 on, the text of `n` followed by a semicolon is
/// tokenized as the number, the semicolon and the end of input, all on line 1, and
/// parsed as the bare integer `n` followed by the end marker.
pub proof fn literal_round_trip(n: i64)
    requires
        n >= 1,
    ensures
        tokenize_spec(decimal_text(n as nat) + seq![';']) == Some(literal_stream(n)),
        parse_spec(literal_stream(n)) == Ok::<_, SpecSyntaxError>(
            seq![SpecNode::Int(n), SpecNode::Eof],
        ),
{
    let digits = decimal_text(n as nat);
    let text = digits + seq![';'];
    let len = digits.len() as int;
    lemma_decimal_text(n as nat);
    assert(text[0] == digits[0]);
    assert(text[len] == ';');
    assert forall|i: int| 1 <= i < len implies is_digit_char(#[trigger] text[i]) by {
        assert(text[i] == digits[i]);
    }
    lemma_digits_end_at(text, 1, len);
    assert(text.subrange(0, len) =~= digits);
    let last = lex_from(text, len + 1, 1);
    assert(last == Some(seq![SpecTokens { token: SpecToken::Eof, line: 1 }]));
    let middle = lex_from(text, len, 1);
    assert(middle == Some(
        seq![SpecTokens { token: SpecToken::Semicolon, line: 1 }] + last->0,
    ));
    assert(lex_from(text, 0, 1) == Some(
        seq![SpecTokens { token: SpecToken::Number(n), line: 1 }] + middle->0,
    ));
    assert(seq![SpecTokens { token: SpecToken::Number(n), line: 1 }] + middle->0 =~= literal_stream(
        n,
    ));

    let tokens = literal_stream(n);
    assert(put_into_nodes_spec(tokens, 2, EndToken::Eof) == Ok::<_, SpecSyntaxError>(
        (seq![SpecNode::Eof], 3int),
    ));
    assert(statement_spec(tokens, 1) == Ok::<_, SpecSyntaxError>(
        (Seq::<SpecNode>::empty(), 2int),
    ));
    assert(Seq::<SpecNode>::empty() + seq![SpecNode::Eof] =~= seq![SpecNode::Eof]);
    assert(put_into_nodes_spec(tokens, 1, EndToken::Eof) == Ok::<_, SpecSyntaxError>(
        (seq![SpecNode::Eof], 3int),
    ));
    assert(examine_numbers_spec(tokens, 1, n, 1) == Ok::<_, SpecSyntaxError>(
        (seq![SpecNode::Int(n)], 1int),
    ));
    assert(statement_spec(tokens, 0) == examine_numbers_spec(tokens, 1, n, 1));
    assert(seq![SpecNode::Int(n)] + seq![SpecNode::Eof] =~= seq![SpecNode::Int(n), SpecNode::Eof]);
    assert(put_into_nodes_spec(tokens, 0, EndToken::Eof) == Ok::<_, SpecSyntaxError>(
        (seq![SpecNode::Int(n), SpecNode::Eof], 3int),
    ));
}

} // verus!
