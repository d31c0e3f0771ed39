use std::collections::VecDeque;

use vstd::prelude::*;
use vstd::std_specs::vecdeque::VecDequeAdditionalSpecFns;

use super::token::{Token, TokenKind};
use crate::common::position::Position;
use crate::common::string::utf16_decode_lossy;

verus! {

/// The text `{:?}` writes for a `bool`.
pub open spec fn bool_text(b: bool) -> Seq<char> {
    if b {
        "true"@
    } else {
        "false"@
    }
}

/// The text `{:?}` writes for a token, given the text of its kind.
pub open spec fn token_fields_text(kind: Seq<char>, pos: Position, has_left_spacing: bool) -> Seq<
    char,
> {
    "Token { kind: "@ + kind + ", pos: "@ + pos.debug_spec() + ", has_left_spacing: "@ + bool_text(
        has_left_spacing,
    ) + " }"@
}

/// The text `{:?}` writes for a token kind: the variant's name, followed by what the
/// variant carries in brackets (the text of a literal or name, or the list of tokens).
pub open spec fn kind_text(k: TokenKind) -> Seq<char>
    decreases k, 0nat,
{
    match k {
        TokenKind::EOF => "EOF"@,
        TokenKind::NewLine => "NewLine"@,
        TokenKind::Identifier(s) => "Identifier("@ + utf16_decode_lossy(s@) + ")"@,
        TokenKind::NumberLiteral(s, _) => "NumberLiteral("@ + utf16_decode_lossy(s@) + ")"@,
        TokenKind::StringLiteral(s) => "StringLiteral("@ + utf16_decode_lossy(s@) + ")"@,
        TokenKind::Template(v) => "Template("@ + ("["@ + vec_items_text(v, v.len() as nat) + "]"@)
            + ")"@,
        TokenKind::TemplateStringElement(s) => "TemplateStringElement("@ + utf16_decode_lossy(s@) + ")"@,
        TokenKind::TemplateExprElement(q) => "TemplateExprElement("@ + ("["@ + deque_items_text(
            q,
            q.len() as nat,
        ) + "]"@) + ")"@,
        TokenKind::NullKeyword => "NullKeyword"@,
        TokenKind::TrueKeyword => "TrueKeyword"@,
        TokenKind::FalseKeyword => "FalseKeyword"@,
        TokenKind::EachKeyword => "EachKeyword"@,
        TokenKind::ForKeyword => "ForKeyword"@,
        TokenKind::LoopKeyword => "LoopKeyword"@,
        TokenKind::DoKeyword => "DoKeyword"@,
        TokenKind::WhileKeyword => "WhileKeyword"@,
        TokenKind::BreakKeyword => "BreakKeyword"@,
        TokenKind::ContinueKeyword => "ContinueKeyword"@,
        TokenKind::MatchKeyword => "MatchKeyword"@,
        TokenKind::CaseKeyword => "CaseKeyword"@,
        TokenKind::DefaultKeyword => "DefaultKeyword"@,
        TokenKind::IfKeyword => "IfKeyword"@,
        TokenKind::ElifKeyword => "ElifKeyword"@,
        TokenKind::ElseKeyword => "ElseKeyword"@,
        TokenKind::ReturnKeyword => "ReturnKeyword"@,
        TokenKind::EvalKeyword => "EvalKeyword"@,
        TokenKind::VarKeyword => "VarKeyword"@,
        TokenKind::LetKeyword => "LetKeyword"@,
        TokenKind::ExistsKeyword => "ExistsKeyword"@,
        TokenKind::Not => "Not"@,
        TokenKind::NotEq => "NotEq"@,
        TokenKind::OpenSharpBracket => "OpenSharpBracket"@,
        TokenKind::Sharp3 => "Sharp3"@,
        TokenKind::Percent => "Percent"@,
        TokenKind::And2 => "And2"@,
        TokenKind::OpenParen => "OpenParen"@,
        TokenKind::CloseParen => "CloseParen"@,
        TokenKind::Asterisk => "Asterisk"@,
        TokenKind::Plus => "Plus"@,
        TokenKind::PlusEq => "PlusEq"@,
        TokenKind::Comma => "Comma"@,
        TokenKind::Minus => "Minus"@,
        TokenKind::MinusEq => "MinusEq"@,
        TokenKind::Dot => "Dot"@,
        TokenKind::Slash => "Slash"@,
        TokenKind::Colon => "Colon"@,
        TokenKind::Colon2 => "Colon2"@,
        TokenKind::SemiColon => "SemiColon"@,
        TokenKind::Lt => "Lt"@,
        TokenKind::LtEq => "LtEq"@,
        TokenKind::Out => "Out"@,
        TokenKind::Eq => "Eq"@,
        TokenKind::Eq2 => "Eq2"@,
        TokenKind::Arrow => "Arrow"@,
        TokenKind::Gt => "Gt"@,
        TokenKind::GtEq => "GtEq"@,
        TokenKind::Question => "Question"@,
        TokenKind::At => "At"@,
        TokenKind::OpenBracket => "OpenBracket"@,
        TokenKind::BackSlash => "BackSlash"@,
        TokenKind::CloseBracket => "CloseBracket"@,
        TokenKind::Hat => "Hat"@,
        TokenKind::OpenBrace => "OpenBrace"@,
        TokenKind::Or2 => "Or2"@,
        TokenKind::CloseBrace => "CloseBrace"@,
    }
}

/// The texts of the first `n` tokens of `v`, separated by ", ".
pub open spec fn vec_items_text(v: Vec<Token>, n: nat) -> Seq<char>
    decreases v, n,
{
    if n == 0 || n > v.len() {
        Seq::empty()
    } else {
        let t = v[n - 1];
        let item = token_fields_text(kind_text(t.kind), t.pos, t.has_left_spacing);
        if n == 1 {
            item
        } else {
            vec_items_text(v, (n - 1) as nat) + ", "@ + item
        }
    }
}

/// The texts of the first `n` tokens of `q`, separated by ", ".
pub open spec fn deque_items_text(q: VecDeque<Token>, n: nat) -> Seq<char>
    decreases q, n,
{
    if n == 0 || n > q.len() {
        Seq::empty()
    } else {
        let t = q[n - 1];
        let item = token_fields_text(kind_text(t.kind), t.pos, t.has_left_spacing);
        if n == 1 {
            item
        } else {
            deque_items_text(q, (n - 1) as nat) + ", "@ + item
        }
    }
}

/// The text `{:?}` writes for a `bool`.
fn bool_debug_text(b: bool) -> (r: String)
    ensures
        r@ == bool_text(b),
{
    if b {
        "true".to_owned()
    } else {
        "false".to_owned()
    }
}

/// `head`, then `inner`, then a closing parenthesis.
fn wrapped(head: &str, inner: String) -> (r: String)
    ensures
        r@ == head@ + inner@ + ")"@,
{
    let mut r = head.to_owned();
    r.append(inner.as_str());
    r.append(")");
    r
}

/// The text `{:?}` writes for a token, given the text of its kind.
fn token_debug_text(kind: String, pos: &Position, has_left_spacing: bool) -> (r: String)
    ensures
        r@ == token_fields_text(kind@, *pos, has_left_spacing),
{
    let mut r = "Token { kind: ".to_owned();
    r.append(kind.as_str());
    r.append(", pos: ");
    r.append(pos.debug_text().as_str());
    r.append(", has_left_spacing: ");
    r.append(bool_debug_text(has_left_spacing).as_str());
    r.append(" }");
    r
}

/// The text `{:?}` writes for a list of tokens.
fn vec_debug_text(v: &Vec<Token>) -> (r: String)
    ensures
        r@ == "["@ + vec_items_text(*v, v.len() as nat) + "]"@,
    decreases v, 1nat,
{
    let mut r = "[".to_owned();
    let mut i: usize = 0;
    while i < v.len()
        invariant
            i <= v.len(),
            r@ == "["@ + vec_items_text(*v, i as nat),
        decreases v.len() - i,
    {
        let t = &v[i];
        proof {
            assert(decreases_to!(*v => v[i as int]));
        }
        let kind = t.kind.debug_text();
        let item = token_debug_text(kind, &t.pos, t.has_left_spacing);
        if i > 0 {
            r.append(", ");
        }
        r.append(item.as_str());
        assert(r@ =~= "["@ + vec_items_text(*v, (i + 1) as nat));
        i = i + 1;
    }
    r.append("]");
    r
}

/// The text `{:?}` writes for a queue of tokens.
fn deque_debug_text(q: &VecDeque<Token>) -> (r: String)
    ensures
        r@ == "["@ + deque_items_text(*q, q.len() as nat) + "]"@,
    decreases q, 1nat,
{
    let mut r = "[".to_owned();
    let mut i: usize = 0;
    while i < q.len()
        invariant
            i <= q.len(),
            r@ == "["@ + deque_items_text(*q, i as nat),
        decreases q.len() - i,
    {
        let t = &q[i];
        proof {
            assert(decreases_to!(*q => q[i as int]));
        }
        let kind = t.kind.debug_text();
        let item = token_debug_text(kind, &t.pos, t.has_left_spacing);
        if i > 0 {
            r.append(", ");
        }
        r.append(item.as_str());
        assert(r@ =~= "["@ + deque_items_text(*q, (i + 1) as nat));
        i = i + 1;
    }
    r.append("]");
    r
}

impl TokenKind {
    /// The text `{:?}` writes for the kind.
    pub fn debug_text(&self) -> (r: String)
        ensures
            r@ == kind_text(*self),
        decreases self, 0nat,
    {
        match self {
            TokenKind::EOF => "EOF".to_owned(),
            TokenKind::NewLine => "NewLine".to_owned(),
            TokenKind::Identifier(s) => wrapped("Identifier(", s.debug_text()),
            TokenKind::NumberLiteral(s, _) => wrapped("NumberLiteral(", s.debug_text()),
            TokenKind::StringLiteral(s) => wrapped("StringLiteral(", s.debug_text()),
            TokenKind::Template(v) => wrapped("Template(", vec_debug_text(v)),
            TokenKind::TemplateStringElement(s) => wrapped("TemplateStringElement(", s.debug_text()),
            TokenKind::TemplateExprElement(q) => wrapped("TemplateExprElement(", deque_debug_text(q)),
            TokenKind::NullKeyword => "NullKeyword".to_owned(),
            TokenKind::TrueKeyword => "TrueKeyword".to_owned(),
            TokenKind::FalseKeyword => "FalseKeyword".to_owned(),
            TokenKind::EachKeyword => "EachKeyword".to_owned(),
            TokenKind::ForKeyword => "ForKeyword".to_owned(),
            TokenKind::LoopKeyword => "LoopKeyword".to_owned(),
            TokenKind::DoKeyword => "DoKeyword".to_owned(),
            TokenKind::WhileKeyword => "WhileKeyword".to_owned(),
            TokenKind::BreakKeyword => "BreakKeyword".to_owned(),
            TokenKind::ContinueKeyword => "ContinueKeyword".to_owned(),
            TokenKind::MatchKeyword => "MatchKeyword".to_owned(),
            TokenKind::CaseKeyword => "CaseKeyword".to_owned(),
            TokenKind::DefaultKeyword => "DefaultKeyword".to_owned(),
            TokenKind::IfKeyword => "IfKeyword".to_owned(),
            TokenKind::ElifKeyword => "ElifKeyword".to_owned(),
            TokenKind::ElseKeyword => "ElseKeyword".to_owned(),
            TokenKind::ReturnKeyword => "ReturnKeyword".to_owned(),
            TokenKind::EvalKeyword => "EvalKeyword".to_owned(),
            TokenKind::VarKeyword => "VarKeyword".to_owned(),
            TokenKind::LetKeyword => "LetKeyword".to_owned(),
            TokenKind::ExistsKeyword => "ExistsKeyword".to_owned(),
            TokenKind::Not => "Not".to_owned(),
            TokenKind::NotEq => "NotEq".to_owned(),
            TokenKind::OpenSharpBracket => "OpenSharpBracket".to_owned(),
            TokenKind::Sharp3 => "Sharp3".to_owned(),
            TokenKind::Percent => "Percent".to_owned(),
            TokenKind::And2 => "And2".to_owned(),
            TokenKind::OpenParen => "OpenParen".to_owned(),
            TokenKind::CloseParen => "CloseParen".to_owned(),
            TokenKind::Asterisk => "Asterisk".to_owned(),
            TokenKind::Plus => "Plus".to_owned(),
            TokenKind::PlusEq => "PlusEq".to_owned(),
            TokenKind::Comma => "Comma".to_owned(),
            TokenKind::Minus => "Minus".to_owned(),
            TokenKind::MinusEq => "MinusEq".to_owned(),
            TokenKind::Dot => "Dot".to_owned(),
            TokenKind::Slash => "Slash".to_owned(),
            TokenKind::Colon => "Colon".to_owned(),
            TokenKind::Colon2 => "Colon2".to_owned(),
            TokenKind::SemiColon => "SemiColon".to_owned(),
            TokenKind::Lt => "Lt".to_owned(),
            TokenKind::LtEq => "LtEq".to_owned(),
            TokenKind::Out => "Out".to_owned(),
            TokenKind::Eq => "Eq".to_owned(),
            TokenKind::Eq2 => "Eq2".to_owned(),
            TokenKind::Arrow => "Arrow".to_owned(),
            TokenKind::Gt => "Gt".to_owned(),
            TokenKind::GtEq => "GtEq".to_owned(),
            TokenKind::Question => "Question".to_owned(),
            TokenKind::At => "At".to_owned(),
            TokenKind::OpenBracket => "OpenBracket".to_owned(),
            TokenKind::BackSlash => "BackSlash".to_owned(),
            TokenKind::CloseBracket => "CloseBracket".to_owned(),
            TokenKind::Hat => "Hat".to_owned(),
            TokenKind::OpenBrace => "OpenBrace".to_owned(),
            TokenKind::Or2 => "Or2".to_owned(),
            TokenKind::CloseBrace => "CloseBrace".to_owned(),
        }
    }
}

impl Token {
    /// The text `{:?}` writes for the token.
    pub fn debug_text(&self) -> (r: String)
        ensures
            r@ == token_fields_text(kind_text(self.kind), self.pos, self.has_left_spacing),
    {
        token_debug_text(self.kind.debug_text(), &self.pos, self.has_left_spacing)
    }
}

} // verus!
