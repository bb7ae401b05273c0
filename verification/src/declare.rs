use crate::cursor::attrs_prefix_len;
use crate::cursor::export_in_attrs;
use crate::cursor::find_comma;
use crate::cursor::lemma_split_first_segment;
use crate::cursor::skip_attributes;
use crate::cursor::skip_visibility;
use crate::cursor::split_commas;
use crate::cursor::vis_prefix_len;
use crate::diag::ErrView;
use crate::diag::ErrorKind;
use crate::diag::ExpandError;
use crate::diag::expand_error;
use crate::token::Delim;
use crate::token::Token;
use crate::token::TokenView;
use crate::token::duplicate;
use crate::token::views_of;
use vstd::prelude::*;

verus! {

/// The shape of an extracted record declaration: whether the generated rule
/// is exported, the record's identifier token and its brace-delimited
/// field-list body.
pub struct DescView {
    pub export: bool,
    pub name: TokenView,
    pub body: TokenView,
}

/// An extracted record declaration.
pub struct RecordDescriptor {
    pub export: bool,
    pub name: Token,
    pub body: Token,
}

impl View for RecordDescriptor {
    type V = DescView;

    open spec fn view(&self) -> DescView {
        DescView { export: self.export, name: self.name@, body: self.body@ }
    }
}

/// Accepts the candidate body token of a declaration: it must be a
/// brace-delimited group to name fields.
pub open spec fn accept_body(export: bool, name: TokenView, body: TokenView) -> Result<
    DescView,
    ErrView,
> {
    match body {
        TokenView::Group { delim, .. } => {
            if delim == Delim::Brace {
                Ok(DescView { export, name, body })
            } else {
                Err(
                    ErrView {
                        kind: ErrorKind::UnsupportedDeclarationKind,
                        span: Some(body.span_of()),
                        msg: "fields_glob only support named field struct"@,
                    },
                )
            }
        },
        _ => Err(
            ErrView {
                kind: ErrorKind::MalformedDeclaration,
                span: Some(body.span_of()),
                msg: "fields_glob expected a struct body"@,
            },
        ),
    }
}

/// What extracting a declaration yields: leading attributes give the export
/// flag, a visibility qualifier is ignored, the word `struct` and the
/// record's identifier must follow, and the body is the last token, or the
/// second-to-last when the declaration ends in a semicolon.
pub open spec fn declare_views(ts: Seq<TokenView>) -> Result<DescView, ErrView> {
    let export = export_in_attrs(ts);
    let after_attrs = ts.skip(attrs_prefix_len(ts) as int);
    let rest = after_attrs.skip(vis_prefix_len(after_attrs) as int);
    if rest.len() == 0 {
        Err(
            ErrView {
                kind: ErrorKind::MalformedDeclaration,
                span: None,
                msg: "fields_glob expected a declaration"@,
            },
        )
    } else if !rest[0].is_word("struct"@) {
        Err(
            ErrView {
                kind: ErrorKind::UnsupportedDeclarationKind,
                span: Some(rest[0].span_of()),
                msg: "fields_glob only support struct"@,
            },
        )
    } else if rest.len() < 2 || !(rest[1] matches TokenView::Ident { .. }) {
        Err(
            ErrView {
                kind: ErrorKind::MalformedDeclaration,
                span: if rest.len() >= 2 {
                    Some(rest[1].span_of())
                } else {
                    None
                },
                msg: "fields_glob expected a struct name"@,
            },
        )
    } else if rest.len() < 3 {
        Err(
            ErrView {
                kind: ErrorKind::MalformedDeclaration,
                span: None,
                msg: "fields_glob expected a struct body"@,
            },
        )
    } else {
        let last = rest[rest.len() - 1];
        if !last.is_punct(';') {
            accept_body(export, rest[1], last)
        } else if rest.len() >= 4 {
            accept_body(export, rest[1], rest[rest.len() - 2])
        } else {
            Err(
                ErrView {
                    kind: ErrorKind::UnsupportedDeclarationKind,
                    span: Some(last.span_of()),
                    msg: "fields_glob cannot support unit-like struct"@,
                },
            )
        }
    }
}

/// Walks one type declaration and extracts the record descriptor, or the
/// refusal that the declaration earns.
pub fn extract_declaration(ts: &Vec<Token>) -> (r: Result<RecordDescriptor, ExpandError>)
    ensures
        match r {
            Ok(d) => declare_views(views_of(ts@)) == Ok::<DescView, ErrView>(d@),
            Err(e) => declare_views(views_of(ts@)) == Err::<DescView, ErrView>(e@),
        },
{
    let ghost vs = views_of(ts@);
    let a = skip_attributes(ts, 0);
    let export = scan_export_from_start(ts);
    let v = skip_visibility(ts, a);
    proof {
        assert(vs.skip(0) =~= vs);
        assert(vs.skip(a as int).skip((v - a) as int) =~= vs.skip(v as int));
    }
    let ghost rest = vs.skip(v as int);
    let n = ts.len();
    proof {
        assert(forall|k: int| 0 <= k < rest.len() ==> rest[k] == vs[v + k]);
    }
    if v >= n {
        return Err(
            expand_error(ErrorKind::MalformedDeclaration, None, "fields_glob expected a declaration"),
        );
    }
    if !ts[v].is_word_str("struct") {
        return Err(
            expand_error(
                ErrorKind::UnsupportedDeclarationKind,
                Some(ts[v].span_tag()),
                "fields_glob only support struct",
            ),
        );
    }
    if v + 1 >= n {
        return Err(
            expand_error(ErrorKind::MalformedDeclaration, None, "fields_glob expected a struct name"),
        );
    }
    let is_name_ident = match &ts[v + 1] {
        Token::Ident { .. } => true,
        _ => false,
    };
    if !is_name_ident {
        return Err(
            expand_error(
                ErrorKind::MalformedDeclaration,
                Some(ts[v + 1].span_tag()),
                "fields_glob expected a struct name",
            ),
        );
    }
    if v + 2 >= n {
        return Err(
            expand_error(ErrorKind::MalformedDeclaration, None, "fields_glob expected a struct body"),
        );
    }
    let name = duplicate(&ts[v + 1]);
    if !ts[n - 1].is_punct_ch(';') {
        accept_body_exec(export, name, &ts[n - 1])
    } else if v + 3 < n {
        proof {
            assert(rest.len() >= 4);
            assert(rest[rest.len() - 2] == vs[n - 2]);
        }
        accept_body_exec(export, name, &ts[n - 2])
    } else {
        Err(
            expand_error(
                ErrorKind::UnsupportedDeclarationKind,
                Some(ts[n - 1].span_tag()),
                "fields_glob cannot support unit-like struct",
            ),
        )
    }
}

fn scan_export_from_start(ts: &Vec<Token>) -> (r: bool)
    ensures
        r == export_in_attrs(views_of(ts@)),
{
    let r = crate::cursor::scan_export(ts, 0);
    proof {
        assert(views_of(ts@).skip(0) =~= views_of(ts@));
    }
    r
}

fn accept_body_exec(export: bool, name: Token, body: &Token) -> (r: Result<
    RecordDescriptor,
    ExpandError,
>)
    ensures
        match r {
            Ok(d) => accept_body(export, name@, body@) == Ok::<DescView, ErrView>(d@),
            Err(e) => accept_body(export, name@, body@) == Err::<DescView, ErrView>(e@),
        },
{
    match body {
        Token::Group { delim, .. } => {
            if *delim == Delim::Brace {
                Ok(RecordDescriptor { export, name, body: duplicate(body) })
            } else {
                Err(
                    expand_error(
                        ErrorKind::UnsupportedDeclarationKind,
                        Some(body.span_tag()),
                        "fields_glob only support named field struct",
                    ),
                )
            }
        },
        _ => Err(
            expand_error(
                ErrorKind::MalformedDeclaration,
                Some(body.span_tag()),
                "fields_glob expected a struct body",
            ),
        ),
    }
}

/// The field name a declaration segment yields: past its attributes and
/// visibility qualifier it must open with an identifier immediately followed
/// by the type-annotation separator, a lone colon (never the first half of a
/// path's `::`); any other shape names no field.
pub open spec fn field_of_segment(seg: Seq<TokenView>) -> Option<Seq<char>> {
    let after_attrs = seg.skip(attrs_prefix_len(seg) as int);
    let rest = after_attrs.skip(vis_prefix_len(after_attrs) as int);
    if rest.len() >= 2 && rest[1].is_lone_punct(':') {
        match rest[0] {
            TokenView::Ident { text, .. } => Some(text),
            _ => None,
        }
    } else {
        None
    }
}

/// The ordered field names of a segment sequence, skipping segments that
/// name no field.
pub open spec fn catalog_of_segments(segs: Seq<Seq<TokenView>>) -> Seq<Seq<char>>
    decreases segs.len(),
{
    if segs.len() == 0 {
        Seq::empty()
    } else {
        match field_of_segment(segs[0]) {
            Some(n) => seq![n] + catalog_of_segments(segs.drop_first()),
            None => catalog_of_segments(segs.drop_first()),
        }
    }
}

/// The ordered field names of a field-list body's inner tokens.
pub open spec fn catalog_views(inner: Seq<TokenView>) -> Seq<Seq<char>> {
    catalog_of_segments(split_commas(inner.skip(attrs_prefix_len(inner) as int)))
}

/// The views of a name list.
pub open spec fn names_views(ns: Seq<String>) -> Seq<Seq<char>> {
    Seq::new(ns.len(), |i: int| ns[i]@)
}

fn segment_field(seg: &Vec<Token>) -> (r: Option<String>)
    ensures
        match r {
            Some(s) => field_of_segment(views_of(seg@)) == Some(s@),
            None => field_of_segment(views_of(seg@)) is None,
        },
{
    let ghost vs = views_of(seg@);
    let a = skip_attributes(seg, 0);
    let v = skip_visibility(seg, a);
    proof {
        assert(vs.skip(0) =~= vs);
        assert(vs.skip(a as int).skip((v - a) as int) =~= vs.skip(v as int));
        assert(forall|k: int| 0 <= k < vs.skip(v as int).len() ==> vs.skip(v as int)[k] == vs[v
            + k]);
    }
    if v < seg.len() && v + 1 < seg.len() && seg[v + 1].is_lone_punct_ch(':') {
        match &seg[v] {
            Token::Ident { text, .. } => Some(text.clone()),
            _ => None,
        }
    } else {
        None
    }
}

/// Parses a field-list body's inner tokens into the ordered field catalog.
#[verifier::loop_isolation(false)]
#[verifier::rlimit(50)]
pub fn parse_fields_declare(inner: &Vec<Token>) -> (r: Vec<String>)
    ensures
        names_views(r@) == catalog_views(views_of(inner@)),
{
    let ghost vs = views_of(inner@);
    let start = skip_attributes(inner, 0);
    proof {
        assert(vs.skip(0) =~= vs);
    }
    let ghost target = catalog_of_segments(split_commas(vs.skip(start as int)));
    let mut names: Vec<String> = Vec::new();
    let mut i = start;
    let mut more = true;
    while more
        invariant
            start <= inner@.len(),
            more ==> start <= i <= inner@.len(),
            more ==> target == names_views(names@) + catalog_of_segments(
                split_commas(vs.skip(i as int)),
            ),
            !more ==> target == names_views(names@),
        decreases inner@.len() - i + (if more { 1int } else { 0int }),
    {
        let j = find_comma(inner, i);
        let seg = crate::cursor::copy_range(inner, i, j);
        let ghost suf = vs.skip(i as int);
        let ghost segs = split_commas(suf);
        proof {
            assert(forall|k: int| 0 <= k < suf.len() ==> suf[k] == vs[i + k]);
            lemma_split_first_segment(suf, j - i);
            assert(views_of(seg@) =~= suf.take(j - i));
            if j < inner@.len() {
                assert(segs == seq![suf.take(j - i)] + split_commas(suf.skip(j - i + 1)));
                assert(segs[0] == views_of(seg@));
                assert(segs.drop_first() =~= split_commas(suf.skip(j - i + 1)));
            } else {
                assert(suf.take(j - i) =~= suf);
                assert(segs == seq![suf]);
                assert(segs[0] == views_of(seg@));
                assert(segs.drop_first() =~= Seq::<Seq<TokenView>>::empty());
            }
            assert(catalog_of_segments(segs) == (match field_of_segment(views_of(seg@)) {
                Some(n) => seq![n] + catalog_of_segments(segs.drop_first()),
                None => catalog_of_segments(segs.drop_first()),
            }));
        }
        let ghost prev = names@;
        let field = segment_field(&seg);
        match field {
            Some(s) => {
                names.push(s);
                proof {
                    assert(names_views(names@) =~= names_views(prev) + seq![names@.last()@]);
                }
            },
            None => (),
        }
        if j >= inner.len() {
            proof {
                assert(catalog_of_segments(Seq::<Seq<TokenView>>::empty())
                    == Seq::<Seq<char>>::empty());
                assert(target =~= names_views(names@));
            }
            more = false;
        } else {
            proof {
                assert(suf.skip(j - i + 1) =~= vs.skip(j + 1));
                assert(target =~= names_views(names@) + catalog_of_segments(
                    split_commas(vs.skip(j + 1)),
                ));
            }
            i = j + 1;
        }
    }
    names
}

} // verus!
