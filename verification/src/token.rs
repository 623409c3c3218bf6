use vstd::prelude::*;

verus! {

/// One lexical token. Numeric tokens keep their raw text; string
/// tokens carry the decoded text, quotes stripped and escapes
/// resolved; `Error` marks input the lexer could not recognize.
#[derive(Debug, Clone)]
pub enum Token {
    Error,
    LeftParen,
    RightParen,
    Add,
    Sub,
    Mul,
    Div,
    Comma,
    Int(String),
    Float(String),
    Str(String),
    Var(String),
}

/// Mathematical model of a token: payloads as character sequences.
pub enum TokenModel {
    ErrorT,
    LParen,
    RParen,
    AddOp,
    SubOp,
    MulOp,
    DivOp,
    CommaT,
    IntLit(Seq<char>),
    FloatLit(Seq<char>),
    StrLit(Seq<char>),
    Ident(Seq<char>),
}

impl View for Token {
    type V = TokenModel;

    open spec fn view(&self) -> TokenModel {
        match self {
            Token::Error => TokenModel::ErrorT,
            Token::LeftParen => TokenModel::LParen,
            Token::RightParen => TokenModel::RParen,
            Token::Add => TokenModel::AddOp,
            Token::Sub => TokenModel::SubOp,
            Token::Mul => TokenModel::MulOp,
            Token::Div => TokenModel::DivOp,
            Token::Comma => TokenModel::CommaT,
            Token::Int(s) => TokenModel::IntLit(s@),
            Token::Float(s) => TokenModel::FloatLit(s@),
            Token::Str(s) => TokenModel::StrLit(s@),
            Token::Var(s) => TokenModel::Ident(s@),
        }
    }
}

/// Half-open character range of a token in the source text.
#[derive(Debug, Clone, Copy, PartialEq, Eq, Structural)]
pub struct Span {
    pub lo: usize,
    pub hi: usize,
}

} // verus!

verus! {

/// The descriptive text of a token: operators as themselves, payload
/// tokens with their payload named.
pub open spec fn token_display(t: TokenModel) -> Seq<char> {
    match t {
        TokenModel::ErrorT => "Error"@,
        TokenModel::LParen => "("@,
        TokenModel::RParen => ")"@,
        TokenModel::AddOp => "+"@,
        TokenModel::SubOp => "-"@,
        TokenModel::MulOp => "*"@,
        TokenModel::DivOp => "/"@,
        TokenModel::CommaT => ","@,
        TokenModel::IntLit(s) => "Int("@ + s + ")"@,
        TokenModel::FloatLit(s) => "Float("@ + s + ")"@,
        TokenModel::StrLit(s) => "String("@ + s + ")"@,
        TokenModel::Ident(s) => "Var("@ + s + ")"@,
    }
}

impl Token {
    /// The token's descriptive text.
    pub fn display_string(&self) -> (r: String)
        ensures
            r@ == token_display(self@),
    {
        match self {
            Token::Error => String::from_str("Error"),
            Token::LeftParen => String::from_str("("),
            Token::RightParen => String::from_str(")"),
            Token::Add => String::from_str("+"),
            Token::Sub => String::from_str("-"),
            Token::Mul => String::from_str("*"),
            Token::Div => String::from_str("/"),
            Token::Comma => String::from_str(","),
            Token::Int(s) => {
                let mut out = String::from_str("Int(");
                out.append(s.as_str());
                out.append(")");
                proof {
                    assert(out@ =~= "Int("@ + s@ + ")"@);
                }
                out
            },
            Token::Float(s) => {
                let mut out = String::from_str("Float(");
                out.append(s.as_str());
                out.append(")");
                proof {
                    assert(out@ =~= "Float("@ + s@ + ")"@);
                }
                out
            },
            Token::Str(s) => {
                let mut out = String::from_str("String(");
                out.append(s.as_str());
                out.append(")");
                proof {
                    assert(out@ =~= "String("@ + s@ + ")"@);
                }
                out
            },
            Token::Var(s) => {
                let mut out = String::from_str("Var(");
                out.append(s.as_str());
                out.append(")");
                proof {
                    assert(out@ =~= "Var("@ + s@ + ")"@);
                }
                out
            },
        }
    }
}

} // verus!
