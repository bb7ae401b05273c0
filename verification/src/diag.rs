use crate::token::Delim;
use crate::token::Token;
use crate::token::TokenView;
use crate::token::views_of;
use vstd::prelude::*;
use vstd::string::StringExecFns;

verus! {

/// Why an expansion was refused.
#[derive(Clone, Copy, PartialEq, Eq, Structural, Debug)]
pub enum ErrorKind {
    /// The declaration is not a named-field record.
    UnsupportedDeclarationKind,
    /// The declaration or forwarded input lacks an identifier or a body.
    MalformedDeclaration,
    /// An invocation segment holds no field identifier.
    UnresolvedField,
    /// An invocation holds more than one wildcard.
    DuplicateWildcard,
}

/// The shape of a refusal: its kind, the location of the offending token
/// where one exists, and the diagnostic text.
pub struct ErrView {
    pub kind: ErrorKind,
    pub span: Option<nat>,
    pub msg: Seq<char>,
}

/// A located diagnostic produced in place of an expansion.
#[derive(Debug, PartialEq, Eq)]
pub struct ExpandError {
    pub kind: ErrorKind,
    pub span: Option<usize>,
    pub msg: String,
}

impl View for ExpandError {
    type V = ErrView;

    open spec fn view(&self) -> ErrView {
        ErrView {
            kind: self.kind,
            span: match self.span {
                Some(s) => Some(s as nat),
                None => None,
            },
            msg: self.msg@,
        }
    }
}

/// Builds a refusal from its parts.
pub fn expand_error(kind: ErrorKind, span: Option<usize>, msg: &str) -> (e: ExpandError)
    ensures
        e@ == (ErrView {
            kind,
            span: match span {
                Some(s) => Some(s as nat),
                None => None::<nat>,
            },
            msg: msg@,
        }),
{
    ExpandError { kind, span, msg: String::from_str(msg) }
}

/// The diagnostic text wrapped in double quotes, as a literal token spells it.
pub open spec fn quoted(msg: Seq<char>) -> Seq<char> {
    seq!['"'] + msg + seq!['"']
}

/// The token sequence a refusal expands to: a `compile_error` invocation
/// carrying the diagnostic text, every token at the refusal's location.
pub open spec fn diag_views(e: ErrView) -> Seq<TokenView> {
    let sp: nat = match e.span {
        Some(s) => s,
        None => 0,
    };
    seq![
        TokenView::Ident { text: "compile_error"@, span: sp },
        TokenView::Punct { ch: '!', joint: false, span: sp },
        TokenView::Group {
            delim: Delim::Brace,
            body: seq![TokenView::Lit { text: quoted(e.msg), span: sp }],
            span: sp,
        },
    ]
}

/// Renders a refusal as the tokens of a `compile_error` invocation.
pub fn diagnostic_tokens(e: &ExpandError) -> (r: Vec<Token>)
    ensures
        views_of(r@) == diag_views(e@),
{
    let sp: usize = match e.span {
        Some(s) => s,
        None => 0,
    };
    let mut text = String::from_str("\"");
    text.append(e.msg.as_str());
    text.append("\"");
    proof {
        reveal_strlit("\"");
        assert("\""@ =~= seq!['"']);
        assert(text@ =~= quoted(e.msg@));
    }
    let mut inner: Vec<Token> = Vec::new();
    inner.push(Token::Lit { text, span: sp });
    proof {
        assert(views_of(inner@) =~= seq![TokenView::Lit { text: quoted(e.msg@), span: sp as nat }]);
    }
    let grp = crate::token::group(Delim::Brace, inner, sp);
    let mut r: Vec<Token> = Vec::new();
    r.push(crate::token::ident("compile_error", sp));
    r.push(crate::token::punct_alone('!', sp));
    r.push(grp);
    proof {
        assert(views_of(r@) =~~= diag_views(e@));
    }
    r
}

} // verus!
