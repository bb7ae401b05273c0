use vstd::prelude::*;
use vstd::string::StrSliceExecFns;
use vstd::string::StringExecFns;

verus! {

/// Delimiter kind of a token group: parenthesis, bracket or brace.
#[derive(Clone, Copy, PartialEq, Eq, Structural, Debug)]
pub enum Delim {
    Paren,
    Bracket,
    Brace,
}

/// One lexical token. A group holds its delimited sub-tokens, so nesting is
/// part of the tree and a token sequence is always flat at its own level.
/// The `span` tag names a source location; it is carried for diagnostics and
/// hygiene only and never drives a decision. Zero stands for "no particular
/// source location". The `joint` flag on a punctuation character records
/// whether it binds tightly to the token after it (as the first colon of a
/// path separator does).
#[derive(Debug, PartialEq, Eq)]
pub enum Token {
    Ident { text: String, span: usize },
    Punct { ch: char, joint: bool, span: usize },
    Lit { text: String, span: usize },
    Group { delim: Delim, body: Vec<Token>, span: usize },
}

/// The mathematical shape of a token: identifier and literal texts become
/// character sequences, group bodies become sequences of token shapes.
pub enum TokenView {
    Ident { text: Seq<char>, span: nat },
    Punct { ch: char, joint: bool, span: nat },
    Lit { text: Seq<char>, span: nat },
    Group { delim: Delim, body: Seq<TokenView>, span: nat },
}

pub open spec fn tok_view(t: Token) -> TokenView
    decreases t,
{
    match t {
        Token::Ident { text, span } => TokenView::Ident { text: text@, span: span as nat },
        Token::Punct { ch, joint, span } => TokenView::Punct { ch, joint, span: span as nat },
        Token::Lit { text, span } => TokenView::Lit { text: text@, span: span as nat },
        Token::Group { delim, body, span } => {
            proof {
                assert(decreases_to!(t => body));
                assert(decreases_to!(body => body@));
            }
            TokenView::Group { delim, body: seq_views(body@), span: span as nat }
        },
    }
}

/// The shapes of a token sequence, by structural recursion.
pub open spec fn seq_views(ts: Seq<Token>) -> Seq<TokenView>
    decreases ts,
{
    if ts.len() == 0 {
        Seq::empty()
    } else {
        proof {
            assert(decreases_to!(ts => ts[0]));
        }
        seq![tok_view(ts[0])] + seq_views(ts.drop_first())
    }
}

impl View for Token {
    type V = TokenView;

    open spec fn view(&self) -> TokenView {
        tok_view(*self)
    }
}

/// The shapes of every token in a sequence, in order.
pub open spec fn views_of(ts: Seq<Token>) -> Seq<TokenView> {
    Seq::new(ts.len(), |i: int| ts[i]@)
}

/// The two renderings of a token sequence's shapes are the same sequence.
pub broadcast proof fn lemma_seq_views_is_views_of(ts: Seq<Token>)
    ensures
        #[trigger] seq_views(ts) == views_of(ts),
    decreases ts.len(),
{
    if ts.len() == 0 {
        assert(seq_views(ts) =~= views_of(ts));
    } else {
        lemma_seq_views_is_views_of(ts.drop_first());
        assert(seq_views(ts) =~= views_of(ts));
    }
}

impl TokenView {
    /// The source-location tag of a token shape.
    pub open spec fn span_of(self) -> nat {
        match self {
            TokenView::Ident { span, .. } => span,
            TokenView::Punct { span, .. } => span,
            TokenView::Lit { span, .. } => span,
            TokenView::Group { span, .. } => span,
        }
    }

    /// The token is the given punctuation character.
    pub open spec fn is_punct(self, c: char) -> bool {
        self matches TokenView::Punct { ch, .. } && ch == c
    }

    /// The token is the given punctuation character standing alone, not
    /// bound tightly to its successor (a lone `:`, never the first half of
    /// a `::`).
    pub open spec fn is_lone_punct(self, c: char) -> bool {
        self matches TokenView::Punct { ch, joint, .. } && ch == c && !joint
    }

    /// The token is an identifier spelled exactly as the given word.
    pub open spec fn is_word(self, w: Seq<char>) -> bool {
        self matches TokenView::Ident { text, .. } && text == w
    }

    /// The token is a group with the given delimiter.
    pub open spec fn is_group(self, d: Delim) -> bool {
        self matches TokenView::Group { delim, .. } && delim == d
    }
}

/// Character-for-character equality of two string slices.
pub fn str_eq(a: &str, b: &str) -> (r: bool)
    ensures
        r == (a@ == b@),
{
    let alen = a.unicode_len();
    let blen = b.unicode_len();
    if alen != blen {
        return false;
    }
    let mut i: usize = 0;
    while i < alen
        invariant
            i <= alen,
            alen == a@.len(),
            blen == b@.len(),
            alen == blen,
            forall|j: int| 0 <= j < i ==> a@[j] == b@[j],
        decreases alen - i,
    {
        if a.get_char(i) != b.get_char(i) {
            return false;
        }
        i = i + 1;
    }
    proof {
        assert(a@ =~= b@);
    }
    true
}

impl Token {
    /// The span tag carried by this token.
    pub fn span_tag(&self) -> (s: usize)
        ensures
            s as nat == self@.span_of(),
    {
        match self {
            Token::Ident { span, .. } => *span,
            Token::Punct { span, .. } => *span,
            Token::Lit { span, .. } => *span,
            Token::Group { span, .. } => *span,
        }
    }

    /// Whether this token is the given punctuation character.
    pub fn is_punct_ch(&self, c: char) -> (r: bool)
        ensures
            r == self@.is_punct(c),
    {
        match self {
            Token::Punct { ch, .. } => *ch == c,
            _ => false,
        }
    }

    /// Whether this token is the given punctuation character standing alone.
    pub fn is_lone_punct_ch(&self, c: char) -> (r: bool)
        ensures
            r == self@.is_lone_punct(c),
    {
        match self {
            Token::Punct { ch, joint, .. } => *ch == c && !*joint,
            _ => false,
        }
    }

    /// Whether this token is an identifier spelled as the given word.
    pub fn is_word_str(&self, w: &str) -> (r: bool)
        ensures
            r == self@.is_word(w@),
    {
        match self {
            Token::Ident { text, .. } => str_eq(text.as_str(), w),
            _ => false,
        }
    }

    /// Whether this token is a group with the given delimiter.
    pub fn is_group_kind(&self, d: Delim) -> (r: bool)
        ensures
            r == self@.is_group(d),
    {
        match self {
            Token::Group { delim, .. } => *delim == d,
            _ => false,
        }
    }
}

/// An exact copy of a token, shape for shape.
#[verifier::loop_isolation(false)]
pub fn duplicate(t: &Token) -> (r: Token)
    ensures
        r@ == t@,
    decreases *t,
{
    match t {
        Token::Ident { text, span } => Token::Ident { text: text.clone(), span: *span },
        Token::Punct { ch, joint, span } => Token::Punct { ch: *ch, joint: *joint, span: *span },
        Token::Lit { text, span } => Token::Lit { text: text.clone(), span: *span },
        Token::Group { delim, body, span } => {
            let mut out: Vec<Token> = Vec::new();
            let mut i: usize = 0;
            while i < body.len()
                invariant
                    i <= body.len(),
                    out@.len() == i as int,
                    forall|j: int| 0 <= j < i ==> out@[j]@ == body@[j]@,
                decreases body.len() - i,
            {
                proof {
                    assert(decreases_to!(*t => (*t)->Group_body));
                    assert(*body == (*t)->Group_body);
                    assert(decreases_to!((*t)->Group_body => (*t)->Group_body[i as int]));
                }
                out.push(duplicate(&body[i]));
                i = i + 1;
            }
            proof {
                lemma_seq_views_is_views_of(out@);
                lemma_seq_views_is_views_of(body@);
                assert(views_of(out@) =~= views_of(body@));
            }
            Token::Group { delim: *delim, body: out, span: *span }
        },
    }
}

/// Builds an identifier token.
pub fn ident(text: &str, span: usize) -> (t: Token)
    ensures
        t@ == (TokenView::Ident { text: text@, span: span as nat }),
{
    Token::Ident { text: String::from_str(text), span }
}

/// Builds a punctuation token that does not bind to its successor.
pub fn punct_alone(ch: char, span: usize) -> (t: Token)
    ensures
        t@ == (TokenView::Punct { ch, joint: false, span: span as nat }),
{
    Token::Punct { ch, joint: false, span }
}

/// Builds a punctuation token that binds tightly to its successor.
pub fn punct_joint(ch: char, span: usize) -> (t: Token)
    ensures
        t@ == (TokenView::Punct { ch, joint: true, span: span as nat }),
{
    Token::Punct { ch, joint: true, span }
}

/// Builds a group token around the given sub-tokens.
pub fn group(delim: Delim, body: Vec<Token>, span: usize) -> (t: Token)
    ensures
        t@ == (TokenView::Group { delim, body: views_of(body@), span: span as nat }),
{
    proof {
        lemma_seq_views_is_views_of(body@);
    }
    Token::Group { delim, body, span }
}

} // verus!
