//! The line-oriented token variant: tokens located by file, line and column
//! rather than byte offsets, with a packed flag byte carrying a register
//! size and a newline marker.

use vstd::prelude::*;

verus! {

/// A position in a source file, line-oriented.
pub struct Location {
    pub filename: String,
    pub line: usize,
    pub column_offset: usize,
}

/// The token kinds of the line-oriented variant.
#[derive(Debug, Clone, Copy, PartialEq, Eq, Structural)]
pub enum TokenKind {
    Ampersand,
    At,
    Backslash,
    Bang,
    Caret,
    CharLiteral,
    Colon,
    Comma,
    Dollar,
    Dot,
    DoubleQuote,
    EOF,
    Equals,
    FatArrow,
    FloatLiteral,
    GreaterThan,
    GreaterThanEquals,
    Identifier,
    IntegerLiteral,
    Jmp,
    LeftBrace,
    LeftBracket,
    LeftParen,
    LessThan,
    LessThanEquals,
    Minus,
    MinusMinus,
    Newline,
    NotEquals,
    Percent,
    Pipe,
    Plus,
    PlusPlus,
    Pound,
    Question,
    Register,
    Ret,
    RightBrace,
    RightBracket,
    RightParen,
    Semicolon,
    SingleQuote,
    Slash,
    Star,
    StringLiteral,
    Tilde,
    TinyArrowLeft,
    TinyArrowRight,
    Underscore,
}

/// One located token. The low three flag bits carry a register size; the
/// top bit marks a token preceded by a newline.
pub struct Token {
    pub kind: TokenKind,
    pub location: Location,
    pub text: Vec<u8>,
    pub flag: u8,
}

/// The keyword classification of an identifier run.
pub open spec fn spec_word_kind(t: Seq<u8>) -> TokenKind {
    if t.len() == 3 && t[0] == 0x72u8 && t[1] == 0x65u8 && t[2] == 0x74u8 {
        TokenKind::Ret  // ret
    } else if t.len() == 3 && t[0] == 0x6au8 && t[1] == 0x6du8 && t[2] == 0x70u8 {
        TokenKind::Jmp  // jmp
    } else {
        TokenKind::Identifier
    }
}

impl Token {
    /// A token with no flags set.
    pub fn new(kind: TokenKind, location: Location, text: Vec<u8>) -> (r: Token)
        ensures
            r.kind == kind,
            r.location == location,
            r.text == text,
            r.flag == 0,
    {
        Token { kind, location, text, flag: 0 }
    }

    /// A token with no text.
    pub fn new_simple(kind: TokenKind, location: Location) -> (r: Token)
        ensures
            r.kind == kind,
            r.location == location,
            r.text@.len() == 0,
            r.flag == 0,
    {
        Token::new(kind, location, Vec::new())
    }

    /// The end-of-file token.
    pub fn new_eof(location: Location) -> (r: Token)
        ensures
            r.kind == TokenKind::EOF,
            r.location == location,
            r.text@.len() == 0,
            r.flag == 0,
    {
        Token::new_simple(TokenKind::EOF, location)
    }

    /// A word token, classified against the keyword table.
    pub fn from_string(location: Location, text: Vec<u8>) -> (r: Token)
        ensures
            r.kind == spec_word_kind(text@),
            r.location == location,
            r.text == text,
            r.flag == 0,
    {
        let n = text.len();
        let kind = if n == 3 && text[0] == 0x72 && text[1] == 0x65 && text[2] == 0x74 {
            TokenKind::Ret
        } else if n == 3 && text[0] == 0x6a && text[1] == 0x6d && text[2] == 0x70 {
            TokenKind::Jmp
        } else {
            TokenKind::Identifier
        };
        Token { kind, location, text, flag: 0 }
    }

    /// The register size packed into the low three flag bits.
    pub fn register_size(&self) -> (r: u8)
        ensures
            r == self.flag & 0x07,
            r < 8,
    {
        let f = self.flag;
        proof {
            assert(f & 0x07 < 8) by (bit_vector);
        }
        f & 0x07
    }

    /// Whether the token is preceded by a newline: the top flag bit.
    pub fn newline_before(self) -> (r: bool)
        ensures
            r == (self.flag & 0x80 != 0),
    {
        self.flag & 0x80 != 0
    }

    /// Packs a register size into the low three flag bits, leaving the
    /// other bits as they are.
    pub fn set_register_size(&mut self, size: u8)
        ensures
            final(self).flag == (old(self).flag & 0xf8) | (size & 0x07),
            final(self).flag & 0x07 == size & 0x07,
            final(self).flag & 0xf8 == old(self).flag & 0xf8,
            final(self).kind == old(self).kind,
            final(self).location == old(self).location,
            final(self).text == old(self).text,
    {
        let f = self.flag;
        self.flag = (f & 0xf8) | (size & 0x07);
        proof {
            assert(((f & 0xf8) | (size & 0x07)) & 0x07 == size & 0x07) by (bit_vector);
            assert(((f & 0xf8) | (size & 0x07)) & 0xf8 == f & 0xf8) by (bit_vector);
        }
    }

    /// Sets or clears one flag bit, leaving every other bit as it is.
    pub fn set_flag_bit(&mut self, bit: u8, val: bool)
        requires
            bit < 8,
        ensures
            final(self).flag == if val {
                old(self).flag | (1u8 << bit)
            } else {
                old(self).flag & !(1u8 << bit)
            },
            (final(self).flag >> bit) & 1 == if val {
                1u8
            } else {
                0u8
            },
            final(self).kind == old(self).kind,
            final(self).location == old(self).location,
            final(self).text == old(self).text,
    {
        let f = self.flag;
        if val {
            self.flag = f | (1u8 << bit);
            proof {
                assert(((f | (1u8 << bit)) >> bit) & 1 == 1u8) by (bit_vector)
                    requires
                        bit < 8,
                ;
            }
        } else {
            self.flag = f & !(1u8 << bit);
            proof {
                assert(((f & !(1u8 << bit)) >> bit) & 1 == 0u8) by (bit_vector)
                    requires
                        bit < 8,
                ;
            }
        }
    }
}

} // verus!
