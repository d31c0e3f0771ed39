use std::collections::VecDeque;

use vstd::prelude::*;

use crate::common::position::Position;
use crate::common::string::{Utf16Str, Utf16String};

verus! {

/// The kinds of tokens.
#[derive(Debug)]
pub enum TokenKind {
    EOF,
    NewLine,
    Identifier(Utf16String),
    /// The literal as written, and the IEEE-754 bits of its value.
    NumberLiteral(Utf16String, u64),
    StringLiteral(Utf16String),
    Template(Vec<Token>),
    TemplateStringElement(Utf16String),
    TemplateExprElement(VecDeque<Token>),
    NullKeyword,
    TrueKeyword,
    FalseKeyword,
    EachKeyword,
    ForKeyword,
    LoopKeyword,
    DoKeyword,
    WhileKeyword,
    BreakKeyword,
    ContinueKeyword,
    MatchKeyword,
    CaseKeyword,
    DefaultKeyword,
    IfKeyword,
    ElifKeyword,
    ElseKeyword,
    ReturnKeyword,
    EvalKeyword,
    VarKeyword,
    LetKeyword,
    ExistsKeyword,
    /// "!"
    Not,
    /// "!="
    NotEq,
    /// "#["
    OpenSharpBracket,
    /// "###"
    Sharp3,
    /// "%"
    Percent,
    /// "&&"
    And2,
    /// "("
    OpenParen,
    /// ")"
    CloseParen,
    /// "*"
    Asterisk,
    /// "+"
    Plus,
    /// "+="
    PlusEq,
    /// ","
    Comma,
    /// "-"
    Minus,
    /// "-="
    MinusEq,
    /// "."
    Dot,
    /// "/"
    Slash,
    /// ":"
    Colon,
    /// "::"
    Colon2,
    /// ";"
    SemiColon,
    /// "<"
    Lt,
    /// "<="
    LtEq,
    /// "<:"
    Out,
    /// "="
    Eq,
    /// "=="
    Eq2,
    /// "=>"
    Arrow,
    /// ">"
    Gt,
    /// ">="
    GtEq,
    /// "?"
    Question,
    /// "@"
    At,
    /// "["
    OpenBracket,
    /// "\\"
    BackSlash,
    /// "]"
    CloseBracket,
    /// "^"
    Hat,
    /// "{"
    OpenBrace,
    /// "||"
    Or2,
    /// "}"
    CloseBrace,
}

impl TokenKind {
    /// The number of the variant, the same for all tokens of one kind.
    pub open spec fn tag_spec(&self) -> u8 {
        match self {
            TokenKind::EOF => 0u8,
            TokenKind::NewLine => 1u8,
            TokenKind::Identifier(..) => 2u8,
            TokenKind::NumberLiteral(..) => 3u8,
            TokenKind::StringLiteral(..) => 4u8,
            TokenKind::Template(..) => 5u8,
            TokenKind::TemplateStringElement(..) => 6u8,
            TokenKind::TemplateExprElement(..) => 7u8,
            TokenKind::NullKeyword => 8u8,
            TokenKind::TrueKeyword => 9u8,
            TokenKind::FalseKeyword => 10u8,
            TokenKind::EachKeyword => 11u8,
            TokenKind::ForKeyword => 12u8,
            TokenKind::LoopKeyword => 13u8,
            TokenKind::DoKeyword => 14u8,
            TokenKind::WhileKeyword => 15u8,
            TokenKind::BreakKeyword => 16u8,
            TokenKind::ContinueKeyword => 17u8,
            TokenKind::MatchKeyword => 18u8,
            TokenKind::CaseKeyword => 19u8,
            TokenKind::DefaultKeyword => 20u8,
            TokenKind::IfKeyword => 21u8,
            TokenKind::ElifKeyword => 22u8,
            TokenKind::ElseKeyword => 23u8,
            TokenKind::ReturnKeyword => 24u8,
            TokenKind::EvalKeyword => 25u8,
            TokenKind::VarKeyword => 26u8,
            TokenKind::LetKeyword => 27u8,
            TokenKind::ExistsKeyword => 28u8,
            TokenKind::Not => 29u8,
            TokenKind::NotEq => 30u8,
            TokenKind::OpenSharpBracket => 31u8,
            TokenKind::Sharp3 => 32u8,
            TokenKind::Percent => 33u8,
            TokenKind::And2 => 34u8,
            TokenKind::OpenParen => 35u8,
            TokenKind::CloseParen => 36u8,
            TokenKind::Asterisk => 37u8,
            TokenKind::Plus => 38u8,
            TokenKind::PlusEq => 39u8,
            TokenKind::Comma => 40u8,
            TokenKind::Minus => 41u8,
            TokenKind::MinusEq => 42u8,
            TokenKind::Dot => 43u8,
            TokenKind::Slash => 44u8,
            TokenKind::Colon => 45u8,
            TokenKind::Colon2 => 46u8,
            TokenKind::SemiColon => 47u8,
            TokenKind::Lt => 48u8,
            TokenKind::LtEq => 49u8,
            TokenKind::Out => 50u8,
            TokenKind::Eq => 51u8,
            TokenKind::Eq2 => 52u8,
            TokenKind::Arrow => 53u8,
            TokenKind::Gt => 54u8,
            TokenKind::GtEq => 55u8,
            TokenKind::Question => 56u8,
            TokenKind::At => 57u8,
            TokenKind::OpenBracket => 58u8,
            TokenKind::BackSlash => 59u8,
            TokenKind::CloseBracket => 60u8,
            TokenKind::Hat => 61u8,
            TokenKind::OpenBrace => 62u8,
            TokenKind::Or2 => 63u8,
            TokenKind::CloseBrace => 64u8,
        }
    }

    /// The number of the variant, the same for all tokens of one kind.
    pub fn tag(&self) -> (r: u8)
        ensures
            r == self.tag_spec(),
    {
        match self {
            TokenKind::EOF => 0u8,
            TokenKind::NewLine => 1u8,
            TokenKind::Identifier(..) => 2u8,
            TokenKind::NumberLiteral(..) => 3u8,
            TokenKind::StringLiteral(..) => 4u8,
            TokenKind::Template(..) => 5u8,
            TokenKind::TemplateStringElement(..) => 6u8,
            TokenKind::TemplateExprElement(..) => 7u8,
            TokenKind::NullKeyword => 8u8,
            TokenKind::TrueKeyword => 9u8,
            TokenKind::FalseKeyword => 10u8,
            TokenKind::EachKeyword => 11u8,
            TokenKind::ForKeyword => 12u8,
            TokenKind::LoopKeyword => 13u8,
            TokenKind::DoKeyword => 14u8,
            TokenKind::WhileKeyword => 15u8,
            TokenKind::BreakKeyword => 16u8,
            TokenKind::ContinueKeyword => 17u8,
            TokenKind::MatchKeyword => 18u8,
            TokenKind::CaseKeyword => 19u8,
            TokenKind::DefaultKeyword => 20u8,
            TokenKind::IfKeyword => 21u8,
            TokenKind::ElifKeyword => 22u8,
            TokenKind::ElseKeyword => 23u8,
            TokenKind::ReturnKeyword => 24u8,
            TokenKind::EvalKeyword => 25u8,
            TokenKind::VarKeyword => 26u8,
            TokenKind::LetKeyword => 27u8,
            TokenKind::ExistsKeyword => 28u8,
            TokenKind::Not => 29u8,
            TokenKind::NotEq => 30u8,
            TokenKind::OpenSharpBracket => 31u8,
            TokenKind::Sharp3 => 32u8,
            TokenKind::Percent => 33u8,
            TokenKind::And2 => 34u8,
            TokenKind::OpenParen => 35u8,
            TokenKind::CloseParen => 36u8,
            TokenKind::Asterisk => 37u8,
            TokenKind::Plus => 38u8,
            TokenKind::PlusEq => 39u8,
            TokenKind::Comma => 40u8,
            TokenKind::Minus => 41u8,
            TokenKind::MinusEq => 42u8,
            TokenKind::Dot => 43u8,
            TokenKind::Slash => 44u8,
            TokenKind::Colon => 45u8,
            TokenKind::Colon2 => 46u8,
            TokenKind::SemiColon => 47u8,
            TokenKind::Lt => 48u8,
            TokenKind::LtEq => 49u8,
            TokenKind::Out => 50u8,
            TokenKind::Eq => 51u8,
            TokenKind::Eq2 => 52u8,
            TokenKind::Arrow => 53u8,
            TokenKind::Gt => 54u8,
            TokenKind::GtEq => 55u8,
            TokenKind::Question => 56u8,
            TokenKind::At => 57u8,
            TokenKind::OpenBracket => 58u8,
            TokenKind::BackSlash => 59u8,
            TokenKind::CloseBracket => 60u8,
            TokenKind::Hat => 61u8,
            TokenKind::OpenBrace => 62u8,
            TokenKind::Or2 => 63u8,
            TokenKind::CloseBrace => 64u8,
        }
    }

    /// Whether the kind has no payload.
    pub open spec fn is_plain(&self) -> bool {
        !(self is Identifier || self is NumberLiteral || self is StringLiteral || self is Template
            || self is TemplateStringElement || self is TemplateExprElement)
    }

    /// Whether two kinds are the same variant.
    pub fn same_kind(&self, other: &TokenKind) -> (r: bool)
        ensures
            r == (self.tag_spec() == other.tag_spec()),
    {
        self.tag() == other.tag()
    }

    /// A copy of a kind without payload.
    pub fn copy_plain(&self) -> (r: TokenKind)
        requires
            self.is_plain(),
        ensures
            r == *self,
    {
        match self {
            TokenKind::EOF => TokenKind::EOF,
            TokenKind::NewLine => TokenKind::NewLine,
            TokenKind::NullKeyword => TokenKind::NullKeyword,
            TokenKind::TrueKeyword => TokenKind::TrueKeyword,
            TokenKind::FalseKeyword => TokenKind::FalseKeyword,
            TokenKind::EachKeyword => TokenKind::EachKeyword,
            TokenKind::ForKeyword => TokenKind::ForKeyword,
            TokenKind::LoopKeyword => TokenKind::LoopKeyword,
            TokenKind::DoKeyword => TokenKind::DoKeyword,
            TokenKind::WhileKeyword => TokenKind::WhileKeyword,
            TokenKind::BreakKeyword => TokenKind::BreakKeyword,
            TokenKind::ContinueKeyword => TokenKind::ContinueKeyword,
            TokenKind::MatchKeyword => TokenKind::MatchKeyword,
            TokenKind::CaseKeyword => TokenKind::CaseKeyword,
            TokenKind::DefaultKeyword => TokenKind::DefaultKeyword,
            TokenKind::IfKeyword => TokenKind::IfKeyword,
            TokenKind::ElifKeyword => TokenKind::ElifKeyword,
            TokenKind::ElseKeyword => TokenKind::ElseKeyword,
            TokenKind::ReturnKeyword => TokenKind::ReturnKeyword,
            TokenKind::EvalKeyword => TokenKind::EvalKeyword,
            TokenKind::VarKeyword => TokenKind::VarKeyword,
            TokenKind::LetKeyword => TokenKind::LetKeyword,
            TokenKind::ExistsKeyword => TokenKind::ExistsKeyword,
            TokenKind::Not => TokenKind::Not,
            TokenKind::NotEq => TokenKind::NotEq,
            TokenKind::OpenSharpBracket => TokenKind::OpenSharpBracket,
            TokenKind::Sharp3 => TokenKind::Sharp3,
            TokenKind::Percent => TokenKind::Percent,
            TokenKind::And2 => TokenKind::And2,
            TokenKind::OpenParen => TokenKind::OpenParen,
            TokenKind::CloseParen => TokenKind::CloseParen,
            TokenKind::Asterisk => TokenKind::Asterisk,
            TokenKind::Plus => TokenKind::Plus,
            TokenKind::PlusEq => TokenKind::PlusEq,
            TokenKind::Comma => TokenKind::Comma,
            TokenKind::Minus => TokenKind::Minus,
            TokenKind::MinusEq => TokenKind::MinusEq,
            TokenKind::Dot => TokenKind::Dot,
            TokenKind::Slash => TokenKind::Slash,
            TokenKind::Colon => TokenKind::Colon,
            TokenKind::Colon2 => TokenKind::Colon2,
            TokenKind::SemiColon => TokenKind::SemiColon,
            TokenKind::Lt => TokenKind::Lt,
            TokenKind::LtEq => TokenKind::LtEq,
            TokenKind::Out => TokenKind::Out,
            TokenKind::Eq => TokenKind::Eq,
            TokenKind::Eq2 => TokenKind::Eq2,
            TokenKind::Arrow => TokenKind::Arrow,
            TokenKind::Gt => TokenKind::Gt,
            TokenKind::GtEq => TokenKind::GtEq,
            TokenKind::Question => TokenKind::Question,
            TokenKind::At => TokenKind::At,
            TokenKind::OpenBracket => TokenKind::OpenBracket,
            TokenKind::BackSlash => TokenKind::BackSlash,
            TokenKind::CloseBracket => TokenKind::CloseBracket,
            TokenKind::Hat => TokenKind::Hat,
            TokenKind::OpenBrace => TokenKind::OpenBrace,
            TokenKind::Or2 => TokenKind::Or2,
            TokenKind::CloseBrace => TokenKind::CloseBrace,
            _ => TokenKind::EOF,
        }
    }

    /// The keyword kind spelled by `word`, if it spells one.
    pub open spec fn keyword_spec(word: Seq<u16>) -> Option<TokenKind> {
        if word == seq![110u16, 117u16, 108u16, 108u16] {
            Some(TokenKind::NullKeyword)
        } else if word == seq![116u16, 114u16, 117u16, 101u16] {
            Some(TokenKind::TrueKeyword)
        } else if word == seq![102u16, 97u16, 108u16, 115u16, 101u16] {
            Some(TokenKind::FalseKeyword)
        } else if word == seq![101u16, 97u16, 99u16, 104u16] {
            Some(TokenKind::EachKeyword)
        } else if word == seq![102u16, 111u16, 114u16] {
            Some(TokenKind::ForKeyword)
        } else if word == seq![108u16, 111u16, 111u16, 112u16] {
            Some(TokenKind::LoopKeyword)
        } else if word == seq![100u16, 111u16] {
            Some(TokenKind::DoKeyword)
        } else if word == seq![119u16, 104u16, 105u16, 108u16, 101u16] {
            Some(TokenKind::WhileKeyword)
        } else if word == seq![98u16, 114u16, 101u16, 97u16, 107u16] {
            Some(TokenKind::BreakKeyword)
        } else if word == seq![99u16, 111u16, 110u16, 116u16, 105u16, 110u16, 117u16, 101u16] {
            Some(TokenKind::ContinueKeyword)
        } else if word == seq![109u16, 97u16, 116u16, 99u16, 104u16] {
            Some(TokenKind::MatchKeyword)
        } else if word == seq![99u16, 97u16, 115u16, 101u16] {
            Some(TokenKind::CaseKeyword)
        } else if word == seq![100u16, 101u16, 102u16, 97u16, 117u16, 108u16, 116u16] {
            Some(TokenKind::DefaultKeyword)
        } else if word == seq![105u16, 102u16] {
            Some(TokenKind::IfKeyword)
        } else if word == seq![101u16, 108u16, 105u16, 102u16] {
            Some(TokenKind::ElifKeyword)
        } else if word == seq![101u16, 108u16, 115u16, 101u16] {
            Some(TokenKind::ElseKeyword)
        } else if word == seq![114u16, 101u16, 116u16, 117u16, 114u16, 110u16] {
            Some(TokenKind::ReturnKeyword)
        } else if word == seq![101u16, 118u16, 97u16, 108u16] {
            Some(TokenKind::EvalKeyword)
        } else if word == seq![118u16, 97u16, 114u16] {
            Some(TokenKind::VarKeyword)
        } else if word == seq![108u16, 101u16, 116u16] {
            Some(TokenKind::LetKeyword)
        } else if word == seq![101u16, 120u16, 105u16, 115u16, 116u16, 115u16] {
            Some(TokenKind::ExistsKeyword)
        } else {
            None
        }
    }

    /// The keyword kind for `word`, or an identifier holding `word`.
    pub fn for_word(word: &Utf16Str) -> (r: TokenKind)
        ensures
            match TokenKind::keyword_spec(word@) {
                Some(k) => r == k,
                None => r matches TokenKind::Identifier(name) && name@ == word@,
            },
    {
        let kw: [u16; 4] = [110u16, 117u16, 108u16, 108u16];
        if word.eq_u16s(&kw) {
            assert(kw@ =~= seq![110u16, 117u16, 108u16, 108u16]);
            return TokenKind::NullKeyword;
        }
        assert(kw@ =~= seq![110u16, 117u16, 108u16, 108u16]);
        let kw: [u16; 4] = [116u16, 114u16, 117u16, 101u16];
        if word.eq_u16s(&kw) {
            assert(kw@ =~= seq![116u16, 114u16, 117u16, 101u16]);
            return TokenKind::TrueKeyword;
        }
        assert(kw@ =~= seq![116u16, 114u16, 117u16, 101u16]);
        let kw: [u16; 5] = [102u16, 97u16, 108u16, 115u16, 101u16];
        if word.eq_u16s(&kw) {
            assert(kw@ =~= seq![102u16, 97u16, 108u16, 115u16, 101u16]);
            return TokenKind::FalseKeyword;
        }
        assert(kw@ =~= seq![102u16, 97u16, 108u16, 115u16, 101u16]);
        let kw: [u16; 4] = [101u16, 97u16, 99u16, 104u16];
        if word.eq_u16s(&kw) {
            assert(kw@ =~= seq![101u16, 97u16, 99u16, 104u16]);
            return TokenKind::EachKeyword;
        }
        assert(kw@ =~= seq![101u16, 97u16, 99u16, 104u16]);
        let kw: [u16; 3] = [102u16, 111u16, 114u16];
        if word.eq_u16s(&kw) {
            assert(kw@ =~= seq![102u16, 111u16, 114u16]);
            return TokenKind::ForKeyword;
        }
        assert(kw@ =~= seq![102u16, 111u16, 114u16]);
        let kw: [u16; 4] = [108u16, 111u16, 111u16, 112u16];
        if word.eq_u16s(&kw) {
            assert(kw@ =~= seq![108u16, 111u16, 111u16, 112u16]);
            return TokenKind::LoopKeyword;
        }
        assert(kw@ =~= seq![108u16, 111u16, 111u16, 112u16]);
        let kw: [u16; 2] = [100u16, 111u16];
        if word.eq_u16s(&kw) {
            assert(kw@ =~= seq![100u16, 111u16]);
            return TokenKind::DoKeyword;
        }
        assert(kw@ =~= seq![100u16, 111u16]);
        let kw: [u16; 5] = [119u16, 104u16, 105u16, 108u16, 101u16];
        if word.eq_u16s(&kw) {
            assert(kw@ =~= seq![119u16, 104u16, 105u16, 108u16, 101u16]);
            return TokenKind::WhileKeyword;
        }
        assert(kw@ =~= seq![119u16, 104u16, 105u16, 108u16, 101u16]);
        let kw: [u16; 5] = [98u16, 114u16, 101u16, 97u16, 107u16];
        if word.eq_u16s(&kw) {
            assert(kw@ =~= seq![98u16, 114u16, 101u16, 97u16, 107u16]);
            return TokenKind::BreakKeyword;
        }
        assert(kw@ =~= seq![98u16, 114u16, 101u16, 97u16, 107u16]);
        let kw: [u16; 8] = [99u16, 111u16, 110u16, 116u16, 105u16, 110u16, 117u16, 101u16];
        if word.eq_u16s(&kw) {
            assert(kw@ =~= seq![99u16, 111u16, 110u16, 116u16, 105u16, 110u16, 117u16, 101u16]);
            return TokenKind::ContinueKeyword;
        }
        assert(kw@ =~= seq![99u16, 111u16, 110u16, 116u16, 105u16, 110u16, 117u16, 101u16]);
        let kw: [u16; 5] = [109u16, 97u16, 116u16, 99u16, 104u16];
        if word.eq_u16s(&kw) {
            assert(kw@ =~= seq![109u16, 97u16, 116u16, 99u16, 104u16]);
            return TokenKind::MatchKeyword;
        }
        assert(kw@ =~= seq![109u16, 97u16, 116u16, 99u16, 104u16]);
        let kw: [u16; 4] = [99u16, 97u16, 115u16, 101u16];
        if word.eq_u16s(&kw) {
            assert(kw@ =~= seq![99u16, 97u16, 115u16, 101u16]);
            return TokenKind::CaseKeyword;
        }
        assert(kw@ =~= seq![99u16, 97u16, 115u16, 101u16]);
        let kw: [u16; 7] = [100u16, 101u16, 102u16, 97u16, 117u16, 108u16, 116u16];
        if word.eq_u16s(&kw) {
            assert(kw@ =~= seq![100u16, 101u16, 102u16, 97u16, 117u16, 108u16, 116u16]);
            return TokenKind::DefaultKeyword;
        }
        assert(kw@ =~= seq![100u16, 101u16, 102u16, 97u16, 117u16, 108u16, 116u16]);
        let kw: [u16; 2] = [105u16, 102u16];
        if word.eq_u16s(&kw) {
            assert(kw@ =~= seq![105u16, 102u16]);
            return TokenKind::IfKeyword;
        }
        assert(kw@ =~= seq![105u16, 102u16]);
        let kw: [u16; 4] = [101u16, 108u16, 105u16, 102u16];
        if word.eq_u16s(&kw) {
            assert(kw@ =~= seq![101u16, 108u16, 105u16, 102u16]);
            return TokenKind::ElifKeyword;
        }
        assert(kw@ =~= seq![101u16, 108u16, 105u16, 102u16]);
        let kw: [u16; 4] = [101u16, 108u16, 115u16, 101u16];
        if word.eq_u16s(&kw) {
            assert(kw@ =~= seq![101u16, 108u16, 115u16, 101u16]);
            return TokenKind::ElseKeyword;
        }
        assert(kw@ =~= seq![101u16, 108u16, 115u16, 101u16]);
        let kw: [u16; 6] = [114u16, 101u16, 116u16, 117u16, 114u16, 110u16];
        if word.eq_u16s(&kw) {
            assert(kw@ =~= seq![114u16, 101u16, 116u16, 117u16, 114u16, 110u16]);
            return TokenKind::ReturnKeyword;
        }
        assert(kw@ =~= seq![114u16, 101u16, 116u16, 117u16, 114u16, 110u16]);
        let kw: [u16; 4] = [101u16, 118u16, 97u16, 108u16];
        if word.eq_u16s(&kw) {
            assert(kw@ =~= seq![101u16, 118u16, 97u16, 108u16]);
            return TokenKind::EvalKeyword;
        }
        assert(kw@ =~= seq![101u16, 118u16, 97u16, 108u16]);
        let kw: [u16; 3] = [118u16, 97u16, 114u16];
        if word.eq_u16s(&kw) {
            assert(kw@ =~= seq![118u16, 97u16, 114u16]);
            return TokenKind::VarKeyword;
        }
        assert(kw@ =~= seq![118u16, 97u16, 114u16]);
        let kw: [u16; 3] = [108u16, 101u16, 116u16];
        if word.eq_u16s(&kw) {
            assert(kw@ =~= seq![108u16, 101u16, 116u16]);
            return TokenKind::LetKeyword;
        }
        assert(kw@ =~= seq![108u16, 101u16, 116u16]);
        let kw: [u16; 6] = [101u16, 120u16, 105u16, 115u16, 116u16, 115u16];
        if word.eq_u16s(&kw) {
            assert(kw@ =~= seq![101u16, 120u16, 105u16, 115u16, 116u16, 115u16]);
            return TokenKind::ExistsKeyword;
        }
        assert(kw@ =~= seq![101u16, 120u16, 105u16, 115u16, 116u16, 115u16]);
        TokenKind::Identifier(word.to_owned())
    }
}

impl TokenKind {
    /// The text of an operator token as written in the source (empty for other tokens).
    pub open spec fn operator_text(self) -> Seq<char> {
        match self {
            TokenKind::Or2 => "||"@,
            TokenKind::And2 => "&&"@,
            TokenKind::Eq2 => "=="@,
            TokenKind::NotEq => "!="@,
            TokenKind::Lt => "<"@,
            TokenKind::LtEq => "<="@,
            TokenKind::Gt => ">"@,
            TokenKind::GtEq => ">="@,
            TokenKind::Plus => "+"@,
            TokenKind::Minus => "-"@,
            TokenKind::Asterisk => "*"@,
            TokenKind::Slash => "/"@,
            TokenKind::Percent => "%"@,
            TokenKind::Hat => "^"@,
            TokenKind::Not => "!"@,
            TokenKind::Eq => "="@,
            TokenKind::PlusEq => "+="@,
            TokenKind::MinusEq => "-="@,
            _ => Seq::empty(),
        }
    }
}

/// A token: its kind, where it starts, and whether white space precedes it.
#[derive(Debug)]
pub struct Token {
    pub kind: TokenKind,
    pub pos: Position,
    pub has_left_spacing: bool,
}

/// An identifier token with its text.
#[derive(Debug)]
pub struct RawToken {
    pub raw: Utf16String,
    pub pos: Position,
    pub has_left_spacing: bool,
}

/// The end-of-input token.
pub open spec fn eof_token_spec() -> Token {
    Token { kind: TokenKind::EOF, pos: Position::eof_spec(), has_left_spacing: false }
}

/// The end-of-input token.
pub fn eof_token() -> (r: Token)
    ensures
        r == eof_token_spec(),
{
    Token { kind: TokenKind::EOF, pos: Position::eof(), has_left_spacing: false }
}

} // verus!
