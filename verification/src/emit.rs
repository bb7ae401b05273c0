use crate::declare::DescView;
use crate::declare::RecordDescriptor;
use crate::token::Delim;
use crate::token::Token;
use crate::token::TokenView;
use crate::token::duplicate;
use crate::token::group;
use crate::token::ident;
use crate::token::lemma_seq_views_is_views_of;
use crate::token::punct_alone;
use crate::token::punct_joint;
use crate::token::views_of;
use vstd::prelude::*;
use vstd::pervasive::unreached;
use vstd::string::StringExecFns;

verus! {

/// A lone punctuation shape with no particular location.
pub open spec fn pv(ch: char) -> TokenView {
    TokenView::Punct { ch, joint: false, span: 0 }
}

/// A tightly bound punctuation shape with no particular location.
pub open spec fn pj(ch: char) -> TokenView {
    TokenView::Punct { ch, joint: true, span: 0 }
}

/// An identifier shape with no particular location.
pub open spec fn idv(text: Seq<char>) -> TokenView {
    TokenView::Ident { text, span: 0 }
}

/// A group shape with no particular location.
pub open spec fn gv(delim: Delim, body: Seq<TokenView>) -> TokenView {
    TokenView::Group { delim, body, span: 0 }
}

/// The text of the doc literal placed on the generated rule.
pub open spec fn doc_text(name: Seq<char>) -> Seq<char> {
    "\"`"@ + name + "! {}` fields_glob support macro\""@
}

/// The expansion-rule template before its placeholders are filled: a
/// `macro_rules` definition whose name stands as the placeholder `%`, whose
/// single arm forwards the record name (`%` again), the field-list body
/// (`@`) and the caller's tokens to the invocation expander; with the doc
/// literal, and the export mark when asked for.
pub open spec fn skeleton_views(export: bool, doc: Seq<char>) -> Seq<TokenView> {
    let matcher = gv(
        Delim::Paren,
        seq![
            pv('$'),
            gv(Delim::Paren, seq![pv('$'), idv("t"@), pv(':'), idv("tt"@)]),
            pv('*'),
        ],
    );
    let dispatch = gv(
        Delim::Brace,
        seq![pv('%'), pv('@'), pv('$'), gv(Delim::Paren, seq![pv('$'), idv("t"@)]), pv('*')],
    );
    let arm = gv(
        Delim::Brace,
        seq![
            pj(':'),
            pv(':'),
            idv("fields_glob"@),
            pj(':'),
            pv(':'),
            idv("fields_glob_impl"@),
            pv('!'),
            dispatch,
        ],
    );
    let rule = gv(Delim::Brace, seq![matcher, pj('='), pv('>'), arm, pv(';')]);
    let doc_attr = seq![
        pv('#'),
        gv(Delim::Bracket, seq![idv("doc"@), pv('='), TokenView::Lit { text: doc, span: 0 }]),
    ];
    let head = if export {
        seq![pv('#'), gv(Delim::Bracket, seq![idv("macro_export"@)])]
    } else {
        Seq::<TokenView>::empty()
    };
    head + doc_attr + seq![idv("macro_rules"@), pv('!'), pv('%'), rule]
}

/// Rewrites one template token: the placeholder `%` becomes the record's
/// identifier, the placeholder `@` becomes the field-list body with its own
/// locations, and every other token keeps its shape but takes the anchor
/// location, groups being rewritten throughout.
pub open spec fn rewrite_one(
    t: TokenView,
    name: TokenView,
    body: TokenView,
    anchor: nat,
) -> TokenView
    decreases t,
{
    if t.is_punct('%') {
        name
    } else if t.is_punct('@') {
        body
    } else {
        match t {
            TokenView::Ident { text, .. } => TokenView::Ident { text, span: anchor },
            TokenView::Punct { ch, joint, .. } => TokenView::Punct { ch, joint, span: anchor },
            TokenView::Lit { text, .. } => TokenView::Lit { text, span: anchor },
            TokenView::Group { delim, body: b, .. } => TokenView::Group {
                delim,
                body: rewrite_all(b, name, body, anchor),
                span: anchor,
            },
        }
    }
}

/// Rewrites every token of a template sequence.
pub open spec fn rewrite_all(
    ts: Seq<TokenView>,
    name: TokenView,
    body: TokenView,
    anchor: nat,
) -> Seq<TokenView>
    decreases ts,
{
    if ts.len() == 0 {
        Seq::empty()
    } else {
        seq![rewrite_one(ts[0], name, body, anchor)] + rewrite_all(
            ts.drop_first(),
            name,
            body,
            anchor,
        )
    }
}

pub proof fn lemma_rewrite_all(ts: Seq<TokenView>, name: TokenView, body: TokenView, anchor: nat)
    ensures
        rewrite_all(ts, name, body, anchor).len() == ts.len(),
        forall|i: int|
            0 <= i < ts.len() ==> rewrite_all(ts, name, body, anchor)[i] == rewrite_one(
                ts[i],
                name,
                body,
                anchor,
            ),
    decreases ts.len(),
{
    if ts.len() > 0 {
        lemma_rewrite_all(ts.drop_first(), name, body, anchor);
    }
}

/// Rewrites one template token, as `rewrite_one` says.
#[verifier::loop_isolation(false)]
pub fn rewrite_token(t: &Token, name: &Token, body: &Token, anchor: usize) -> (r: Token)
    ensures
        r@ == rewrite_one(t@, name@, body@, anchor as nat),
    decreases *t,
{
    if t.is_punct_ch('%') {
        duplicate(name)
    } else if t.is_punct_ch('@') {
        duplicate(body)
    } else {
        match t {
            Token::Ident { text, .. } => Token::Ident { text: text.clone(), span: anchor },
            Token::Punct { ch, joint, .. } => Token::Punct {
                ch: *ch,
                joint: *joint,
                span: anchor,
            },
            Token::Lit { text, .. } => Token::Lit { text: text.clone(), span: anchor },
            Token::Group { delim, body: b, span } => {
                let mut out: Vec<Token> = Vec::new();
                let mut i: usize = 0;
                while i < b.len()
                    invariant
                        i <= b@.len(),
                        out@.len() == i as int,
                        forall|j: int|
                            0 <= j < i ==> out@[j]@ == rewrite_one(
                                b@[j]@,
                                name@,
                                body@,
                                anchor as nat,
                            ),
                    decreases b@.len() - i,
                {
                    proof {
                        assert(decreases_to!(*t => (*t)->Group_body));
                        assert(*b == (*t)->Group_body);
                        assert(decreases_to!((*t)->Group_body => (*t)->Group_body[i as int]));
                    }
                    out.push(rewrite_token(&b[i], name, body, anchor));
                    i = i + 1;
                }
                proof {
                    lemma_seq_views_is_views_of(b@);
                    lemma_rewrite_all(views_of(b@), name@, body@, anchor as nat);
                    assert(views_of(out@) =~= rewrite_all(
                        views_of(b@),
                        name@,
                        body@,
                        anchor as nat,
                    ));
                    lemma_seq_views_is_views_of(out@);
                }
                Token::Group { delim: *delim, body: out, span: anchor }
            },
        }
    }
}

/// Rewrites a whole template, as `rewrite_all` says.
#[verifier::loop_isolation(false)]
pub fn rewrite_tokens(ts: &Vec<Token>, name: &Token, body: &Token, anchor: usize) -> (r: Vec<
    Token,
>)
    ensures
        views_of(r@) == rewrite_all(views_of(ts@), name@, body@, anchor as nat),
{
    let mut out: Vec<Token> = Vec::new();
    let mut i: usize = 0;
    while i < ts.len()
        invariant
            i <= ts@.len(),
            out@.len() == i as int,
            forall|j: int|
                0 <= j < i ==> out@[j]@ == rewrite_one(ts@[j]@, name@, body@, anchor as nat),
        decreases ts@.len() - i,
    {
        out.push(rewrite_token(&ts[i], name, body, anchor));
        i = i + 1;
    }
    proof {
        lemma_rewrite_all(views_of(ts@), name@, body@, anchor as nat);
        assert(views_of(out@) =~= rewrite_all(views_of(ts@), name@, body@, anchor as nat));
    }
    out
}

/// What the template emitter yields for a record descriptor.
pub open spec fn template_views(d: DescView) -> Seq<TokenView> {
    rewrite_all(
        skeleton_views(d.export, doc_text(d.name->Ident_text)),
        d.name,
        d.body,
        d.name.span_of(),
    )
}

fn doc_text_exec(name: &String) -> (r: String)
    ensures
        r@ == doc_text(name@),
{
    let mut r = String::from_str("\"`");
    r.append(name.as_str());
    r.append("! {}` fields_glob support macro\"");
    r
}

/// Emits the expansion rule for an extracted record declaration: the
/// template with the record's name and field-list body filled in, every
/// synthesized token anchored at the record identifier's location.
#[verifier::rlimit(100)]
pub fn emit_template(d: &RecordDescriptor) -> (r: Vec<Token>)
    requires
        d.name@ matches TokenView::Ident { .. },
    ensures
        views_of(r@) == template_views(d@),
{
    match &d.name {
        Token::Ident { text, span } => {
            let doc = doc_text_exec(text);
            let ghost docv = doc@;
            let anchor: usize = *span;

            let mut frag: Vec<Token> = Vec::new();
            frag.push(punct_alone('$', 0));
            frag.push(ident("t", 0));
            frag.push(punct_alone(':', 0));
            frag.push(ident("tt", 0));
            proof {
                assert(views_of(frag@) =~= seq![pv('$'), idv("t"@), pv(':'), idv("tt"@)]);
            }
            let frag_group = group(Delim::Paren, frag, 0);

            let mut matcher_body: Vec<Token> = Vec::new();
            matcher_body.push(punct_alone('$', 0));
            matcher_body.push(frag_group);
            matcher_body.push(punct_alone('*', 0));
            proof {
                assert(views_of(matcher_body@) =~= seq![
                    pv('$'),
                    gv(Delim::Paren, seq![pv('$'), idv("t"@), pv(':'), idv("tt"@)]),
                    pv('*'),
                ]);
            }
            let matcher = group(Delim::Paren, matcher_body, 0);

            let mut fwd: Vec<Token> = Vec::new();
            fwd.push(punct_alone('$', 0));
            fwd.push(ident("t", 0));
            proof {
                assert(views_of(fwd@) =~= seq![pv('$'), idv("t"@)]);
            }
            let fwd_group = group(Delim::Paren, fwd, 0);

            let mut dispatch_body: Vec<Token> = Vec::new();
            dispatch_body.push(punct_alone('%', 0));
            dispatch_body.push(punct_alone('@', 0));
            dispatch_body.push(punct_alone('$', 0));
            dispatch_body.push(fwd_group);
            dispatch_body.push(punct_alone('*', 0));
            proof {
                assert(views_of(dispatch_body@) =~= seq![
                    pv('%'),
                    pv('@'),
                    pv('$'),
                    gv(Delim::Paren, seq![pv('$'), idv("t"@)]),
                    pv('*'),
                ]);
            }
            let dispatch = group(Delim::Brace, dispatch_body, 0);

            let mut arm_body: Vec<Token> = Vec::new();
            arm_body.push(punct_joint(':', 0));
            arm_body.push(punct_alone(':', 0));
            arm_body.push(ident("fields_glob", 0));
            arm_body.push(punct_joint(':', 0));
            arm_body.push(punct_alone(':', 0));
            arm_body.push(ident("fields_glob_impl", 0));
            arm_body.push(punct_alone('!', 0));
            arm_body.push(dispatch);
            proof {
                assert(views_of(arm_body@) =~= seq![
                    pj(':'),
                    pv(':'),
                    idv("fields_glob"@),
                    pj(':'),
                    pv(':'),
                    idv("fields_glob_impl"@),
                    pv('!'),
                    dispatch@,
                ]);
            }
            let arm = group(Delim::Brace, arm_body, 0);

            let mut rule_body: Vec<Token> = Vec::new();
            rule_body.push(matcher);
            rule_body.push(punct_joint('=', 0));
            rule_body.push(punct_alone('>', 0));
            rule_body.push(arm);
            rule_body.push(punct_alone(';', 0));
            proof {
                assert(views_of(rule_body@) =~= seq![matcher@, pj('='), pv('>'), arm@, pv(';')]);
            }
            let rule = group(Delim::Brace, rule_body, 0);

            let mut doc_attr_body: Vec<Token> = Vec::new();
            doc_attr_body.push(ident("doc", 0));
            doc_attr_body.push(punct_alone('=', 0));
            doc_attr_body.push(Token::Lit { text: doc, span: 0 });
            proof {
                assert(views_of(doc_attr_body@) =~= seq![
                    idv("doc"@),
                    pv('='),
                    TokenView::Lit { text: docv, span: 0 },
                ]);
            }
            let doc_attr = group(Delim::Bracket, doc_attr_body, 0);

            let mut skel: Vec<Token> = Vec::new();
            if d.export {
                let mut mark_body: Vec<Token> = Vec::new();
                mark_body.push(ident("macro_export", 0));
                proof {
                    assert(views_of(mark_body@) =~= seq![idv("macro_export"@)]);
                }
                let mark = group(Delim::Bracket, mark_body, 0);
                skel.push(punct_alone('#', 0));
                skel.push(mark);
            }
            skel.push(punct_alone('#', 0));
            skel.push(doc_attr);
            skel.push(ident("macro_rules", 0));
            skel.push(punct_alone('!', 0));
            skel.push(punct_alone('%', 0));
            skel.push(rule);
            proof {
                assert(views_of(skel@) =~= skeleton_views(d.export, docv));
            }
            let r = rewrite_tokens(&skel, &d.name, &d.body, anchor);
            proof {
                assert(views_of(r@) == template_views(d@));
            }
            r
        },
        _ => unreached(),
    }
}

} // verus!
