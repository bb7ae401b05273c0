use crate::cursor::attrs_prefix_len;
use crate::cursor::find_comma;
use crate::cursor::lemma_split_first_segment;
use crate::cursor::skip_attributes;
use crate::cursor::split_commas;
use crate::declare::names_views;
use crate::diag::ErrView;
use crate::diag::ErrorKind;
use crate::diag::ExpandError;
use crate::diag::expand_error;
use crate::token::Delim;
use crate::token::Token;
use crate::token::TokenView;
use crate::token::duplicate;
use crate::token::punct_alone;
use crate::token::str_eq;
use crate::token::views_of;
use vstd::prelude::*;

verus! {

/// The wildcard's own envelope: the attribute tokens, the optional `ref` and
/// `mut` modifier tokens, and the location of the `*` itself, which every
/// synthesized field identifier inherits.
pub struct StarView {
    pub attrs: Seq<TokenView>,
    pub ref_tok: Option<TokenView>,
    pub mut_tok: Option<TokenView>,
    pub span: nat,
}

/// The wildcard's envelope as parsed from an invocation segment.
pub struct StarInfo {
    pub attrs: Vec<Token>,
    pub ref_tok: Option<Token>,
    pub mut_tok: Option<Token>,
    pub span: usize,
}

impl View for StarInfo {
    type V = StarView;

    open spec fn view(&self) -> StarView {
        StarView {
            attrs: views_of(self.attrs@),
            ref_tok: match self.ref_tok {
                Some(t) => Some(t@),
                None => None,
            },
            mut_tok: match self.mut_tok {
                Some(t) => Some(t@),
                None => None,
            },
            span: self.span as nat,
        }
    }
}

/// The view of an optional wildcard envelope.
pub open spec fn star_opt_view(s: Option<StarInfo>) -> Option<StarView> {
    match s {
        Some(si) => Some(si@),
        None => None,
    }
}

/// The state an invocation walk carries: the field actions emitted so far,
/// the field names already used explicitly, and the wildcard if one was seen.
pub struct ExpState {
    pub body: Seq<TokenView>,
    pub used: Set<Seq<char>>,
    pub star: Option<StarView>,
}

pub open spec fn init_state() -> ExpState {
    ExpState { body: Seq::empty(), used: Set::empty(), star: None }
}

/// A comma token synthesized between emitted field actions.
pub open spec fn comma_view() -> TokenView {
    TokenView::Punct { ch: ',', joint: false, span: 0 }
}

/// Joins an already emitted body with one more field action, comma-separated
/// unless nothing was emitted yet.
pub open spec fn joined(body: Seq<TokenView>, more: Seq<TokenView>) -> Seq<TokenView> {
    if body.len() == 0 {
        body + more
    } else {
        body + seq![comma_view()] + more
    }
}

/// Index of a segment's head token: just past its attributes and its
/// optional `ref` and `mut` modifiers.
pub open spec fn seg_head(seg: Seq<TokenView>) -> int {
    let a = attrs_prefix_len(seg) as int;
    let r = if a < seg.len() && seg[a].is_word("ref"@) {
        a + 1
    } else {
        a
    };
    if r < seg.len() && seg[r].is_word("mut"@) {
        r + 1
    } else {
        r
    }
}

/// The segment asks for the wildcard.
pub open spec fn seg_is_wild(seg: Seq<TokenView>) -> bool {
    seg_head(seg) < seg.len() && seg[seg_head(seg)].is_punct('*')
}

/// The segment names a field explicitly.
pub open spec fn seg_is_explicit(seg: Seq<TokenView>) -> bool {
    seg_head(seg) < seg.len() && seg[seg_head(seg)] matches TokenView::Ident { .. }
}

/// The field name an explicit segment carries.
pub open spec fn seg_name(seg: Seq<TokenView>) -> Seq<char> {
    seg[seg_head(seg)]->Ident_text
}

/// The wildcard envelope a wildcard segment carries.
pub open spec fn seg_star(seg: Seq<TokenView>) -> StarView {
    let a = attrs_prefix_len(seg) as int;
    let has_ref = a < seg.len() && seg[a].is_word("ref"@);
    let r = if has_ref {
        a + 1
    } else {
        a
    };
    let has_mut = r < seg.len() && seg[r].is_word("mut"@);
    StarView {
        attrs: seg.take(a),
        ref_tok: if has_ref {
            Some(seg[a])
        } else {
            None
        },
        mut_tok: if has_mut {
            Some(seg[r])
        } else {
            None
        },
        span: seg[seg_head(seg)].span_of(),
    }
}

/// One step of the invocation walk: a wildcard segment is recorded (a second
/// one is refused), an explicit segment is re-emitted verbatim and its name
/// marked used, and any other segment is refused. A field named explicitly
/// twice is deliberately emitted twice — the expansion trusts its caller as
/// it trusts the declaration — and is never re-supplied by the wildcard.
pub open spec fn step_seg(st: ExpState, seg: Seq<TokenView>) -> Result<ExpState, ErrView> {
    if seg_is_wild(seg) {
        if st.star is Some {
            Err(
                ErrView {
                    kind: ErrorKind::DuplicateWildcard,
                    span: Some(seg[seg_head(seg)].span_of()),
                    msg: "fields_glob only support one wildcard"@,
                },
            )
        } else {
            Ok(ExpState { body: st.body, used: st.used, star: Some(seg_star(seg)) })
        }
    } else if seg_is_explicit(seg) {
        Ok(
            ExpState {
                body: joined(st.body, seg),
                used: st.used.insert(seg_name(seg)),
                star: st.star,
            },
        )
    } else {
        Err(
            ErrView {
                kind: ErrorKind::UnresolvedField,
                span: None,
                msg: "cannot find field"@,
            },
        )
    }
}

/// The invocation walk over all segments, in order.
pub open spec fn run_segs(st: ExpState, segs: Seq<Seq<TokenView>>) -> Result<ExpState, ErrView>
    decreases segs.len(),
{
    if segs.len() == 0 {
        Ok(st)
    } else {
        match step_seg(st, segs[0]) {
            Ok(st2) => run_segs(st2, segs.drop_first()),
            Err(e) => Err(e),
        }
    }
}

/// The tokens synthesized for one complement field: the wildcard's
/// attributes and modifiers, then the field's identifier at the wildcard's
/// location.
pub open spec fn star_field(st: StarView, name: Seq<char>) -> Seq<TokenView> {
    st.attrs + (match st.ref_tok {
        Some(t) => seq![t],
        None => Seq::<TokenView>::empty(),
    }) + (match st.mut_tok {
        Some(t) => seq![t],
        None => Seq::<TokenView>::empty(),
    }) + seq![TokenView::Ident { text: name, span: st.span }]
}

/// Appends, in catalog order, one synthesized field action for every catalog
/// name not already used.
pub open spec fn append_complement(
    body: Seq<TokenView>,
    st: StarView,
    names: Seq<Seq<char>>,
    used: Set<Seq<char>>,
) -> Seq<TokenView>
    decreases names.len(),
{
    if names.len() == 0 {
        body
    } else if used.contains(names[0]) {
        append_complement(body, st, names.drop_first(), used)
    } else {
        append_complement(joined(body, star_field(st, names[0])), st, names.drop_first(), used)
    }
}

/// The segments of an invocation's argument tokens: what follows the
/// leading attributes, split on its commas; no tokens give no segments.
pub open spec fn segs_of(args: Seq<TokenView>) -> Seq<Seq<TokenView>> {
    let rest = args.skip(attrs_prefix_len(args) as int);
    if rest.len() == 0 {
        Seq::<Seq<TokenView>>::empty()
    } else {
        split_commas(rest)
    }
}

/// What an invocation expands to: its leading attributes are dropped, its
/// comma-separated segments are walked in order, the wildcard (if any) is
/// resolved against the catalog, and the result is the record's identifier
/// followed by the brace-wrapped field actions.
pub open spec fn invoke_views(
    name: TokenView,
    catalog: Seq<Seq<char>>,
    args: Seq<TokenView>,
) -> Result<Seq<TokenView>, ErrView> {
    let segs = segs_of(args);
    match run_segs(init_state(), segs) {
        Ok(st) => {
            let body = match st.star {
                Some(sv) => append_complement(st.body, sv, catalog, st.used),
                None => st.body,
            };
            Ok(seq![name, TokenView::Group { delim: Delim::Brace, body, span: 0 }])
        },
        Err(e) => Err(e),
    }
}

/// The set of names a name list holds.
pub open spec fn names_set(ns: Seq<String>) -> Set<Seq<char>> {
    Set::new(|n: Seq<char>| exists|k: int| 0 <= k < ns.len() && ns[k]@ == n)
}

/// Appending a name to the list adds exactly that name to the set.
pub proof fn lemma_names_set_push(ns: Seq<String>, s: String)
    ensures
        names_set(ns.push(s)) == names_set(ns).insert(s@),
{
    assert forall|n: Seq<char>| names_set(ns.push(s)).contains(n) implies names_set(ns).insert(
        s@,
    ).contains(n) by {
        let k = choose|k: int| 0 <= k < ns.push(s).len() && ns.push(s)[k]@ == n;
        if k < ns.len() {
            assert(ns[k]@ == n);
            assert(names_set(ns).contains(n));
        }
    }
    assert forall|n: Seq<char>| names_set(ns).insert(s@).contains(n) implies names_set(
        ns.push(s),
    ).contains(n) by {
        if names_set(ns).contains(n) {
            let k = choose|k: int| 0 <= k < ns.len() && ns[k]@ == n;
            assert(ns.push(s)[k]@ == n);
        } else {
            assert(ns.push(s)[ns.len() as int]@ == n);
        }
    }
    assert(names_set(ns.push(s)) =~= names_set(ns).insert(s@));
}

/// Whether the list holds the given name.
fn names_contain(ns: &Vec<String>, s: &str) -> (r: bool)
    ensures
        r == names_set(ns@).contains(s@),
{
    let mut i: usize = 0;
    while i < ns.len()
        invariant
            i <= ns@.len(),
            forall|k: int| 0 <= k < i ==> ns@[k]@ != s@,
        decreases ns@.len() - i,
    {
        if str_eq(ns[i].as_str(), s) {
            assert(names_set(ns@).contains(s@));
            return true;
        }
        i = i + 1;
    }
    assert(!names_set(ns@).contains(s@));
    false
}

/// Applies one segment to the walk state, as `step_seg` says.
#[verifier::loop_isolation(false)]
#[verifier::rlimit(50)]
fn apply_segment(
    seg: &Vec<Token>,
    body: &mut Vec<Token>,
    used: &mut Vec<String>,
    star: &mut Option<StarInfo>,
) -> (r: Option<ExpandError>)
    ensures
        ({
            let pre = ExpState {
                body: views_of((*old(body))@),
                used: names_set((*old(used))@),
                star: star_opt_view(*old(star)),
            };
            let post = ExpState {
                body: views_of((*final(body))@),
                used: names_set((*final(used))@),
                star: star_opt_view(*final(star)),
            };
            match r {
                None => step_seg(pre, views_of(seg@)) == Ok::<ExpState, ErrView>(post),
                Some(e) => step_seg(pre, views_of(seg@)) == Err::<ExpState, ErrView>(e@),
            }
        }),
{
    let ghost vs = views_of(seg@);
    let a = skip_attributes(seg, 0);
    proof {
        assert(vs.skip(0) =~= vs);
    }
    let has_ref = a < seg.len() && seg[a].is_word_str("ref");
    let rend = if has_ref {
        a + 1
    } else {
        a
    };
    let has_mut = rend < seg.len() && seg[rend].is_word_str("mut");
    let h = if has_mut {
        rend + 1
    } else {
        rend
    };
    proof {
        assert(h as int == seg_head(vs));
    }
    if h < seg.len() && seg[h].is_punct_ch('*') {
        if star.is_some() {
            return Some(
                expand_error(
                    ErrorKind::DuplicateWildcard,
                    Some(seg[h].span_tag()),
                    "fields_glob only support one wildcard",
                ),
            );
        }
        let attrs = crate::cursor::copy_range(seg, 0, a);
        let ref_tok = if has_ref {
            Some(duplicate(&seg[a]))
        } else {
            None
        };
        let mut_tok = if has_mut {
            Some(duplicate(&seg[rend]))
        } else {
            None
        };
        let si = StarInfo { attrs, ref_tok, mut_tok, span: seg[h].span_tag() };
        proof {
            assert(views_of(si.attrs@) =~= vs.take(a as int));
            assert(si@ =~~= seg_star(vs));
        }
        *star = Some(si);
        return None;
    }
    if h >= seg.len() {
        return Some(expand_error(ErrorKind::UnresolvedField, None, "cannot find field"));
    }
    let name: String = match &seg[h] {
        Token::Ident { text, .. } => text.clone(),
        _ => {
            return Some(expand_error(ErrorKind::UnresolvedField, None, "cannot find field"));
        },
    };
    proof {
        assert(seg_is_explicit(vs));
        assert(name@ == seg_name(vs));
    }
    let ghost body0 = views_of(body@);
    if body.len() > 0 {
        body.push(punct_alone(',', 0));
    }
    let ghost prefix = body@;
    proof {
        if body0.len() == 0 {
            assert(views_of(prefix) =~= body0);
        } else {
            assert(views_of(prefix) =~= body0 + seq![comma_view()]);
        }
    }
    let mut k: usize = 0;
    while k < seg.len()
        invariant
            k <= seg@.len(),
            body@.len() == prefix.len() + k,
            forall|j: int| 0 <= j < prefix.len() ==> body@[j] == prefix[j],
            forall|j: int| 0 <= j < k ==> body@[prefix.len() + j]@ == vs[j],
        decreases seg@.len() - k,
    {
        body.push(duplicate(&seg[k]));
        k = k + 1;
    }
    let ghost prev_used = used@;
    used.push(name);
    proof {
        assert(views_of(body@) =~= views_of(prefix) + vs);
        assert(views_of(body@) =~= joined(body0, vs));
        lemma_names_set_push(prev_used, used@.last());
        assert(used@ == prev_used.push(used@.last()));
    }
    None
}

/// Expands one invocation of the generated rule: walks the caller's
/// comma-separated field actions, resolves the optional wildcard against the
/// declared field catalog, and wraps the expanded actions in the record's
/// brace syntax.
#[verifier::loop_isolation(false)]
#[verifier::rlimit(50)]
pub fn parse_fields_use(name: Token, args: &Vec<Token>, decl_fields: &Vec<String>) -> (r: Result<
    Vec<Token>,
    ExpandError,
>)
    ensures
        ({
            let spec_r = invoke_views(name@, names_views(decl_fields@), views_of(args@));
            match r {
                Ok(out) => spec_r == Ok::<Seq<TokenView>, ErrView>(views_of(out@)),
                Err(e) => spec_r == Err::<Seq<TokenView>, ErrView>(e@),
            }
        }),
{
    let ghost vs = views_of(args@);
    let start = skip_attributes(args, 0);
    proof {
        assert(vs.skip(0) =~= vs);
    }
    let ghost rest = vs.skip(start as int);
    let ghost segs: Seq<Seq<TokenView>> = if rest.len() == 0 {
        Seq::<Seq<TokenView>>::empty()
    } else {
        split_commas(rest)
    };
    let mut body: Vec<Token> = Vec::new();
    let mut used: Vec<String> = Vec::new();
    let mut star: Option<StarInfo> = None;
    proof {
        assert(names_set(used@) =~= Set::<Seq<char>>::empty());
        assert(views_of(body@) =~= Seq::<TokenView>::empty());
        assert(ExpState {
            body: views_of(body@),
            used: names_set(used@),
            star: star_opt_view(star),
        } == init_state());
    }
    let ghost target = run_segs(init_state(), segs);
    if start < args.len() {
        let mut i = start;
        let mut more = true;
        while more
            invariant
                start <= args@.len(),
                more ==> start <= i <= args@.len(),
                ({
                    let cur = ExpState {
                        body: views_of(body@),
                        used: names_set(used@),
                        star: star_opt_view(star),
                    };
                    if more {
                        target == run_segs(cur, split_commas(vs.skip(i as int)))
                    } else {
                        target == Ok::<ExpState, ErrView>(cur)
                    }
                }),
            decreases args@.len() - i + (if more { 1int } else { 0int }),
        {
            let j = find_comma(args, i);
            let seg = crate::cursor::copy_range(args, i, j);
            let ghost suf = vs.skip(i as int);
            let ghost cur_segs = split_commas(suf);
            proof {
                assert(forall|k: int| 0 <= k < suf.len() ==> suf[k] == vs[i + k]);
                lemma_split_first_segment(suf, j - i);
                assert(views_of(seg@) =~= suf.take(j - i));
                if j < args@.len() {
                    assert(cur_segs[0] == views_of(seg@));
                    assert(cur_segs.drop_first() =~= split_commas(suf.skip(j - i + 1)));
                    assert(suf.skip(j - i + 1) =~= vs.skip(j + 1));
                } else {
                    assert(suf.take(j - i) =~= suf);
                    assert(cur_segs == seq![suf]);
                    assert(cur_segs[0] == views_of(seg@));
                    assert(cur_segs.drop_first() =~= Seq::<Seq<TokenView>>::empty());
                }
            }
            let ghost pre = ExpState {
                body: views_of(body@),
                used: names_set(used@),
                star: star_opt_view(star),
            };
            proof {
                assert(target == run_segs(pre, cur_segs));
            }
            let step = apply_segment(&seg, &mut body, &mut used, &mut star);
            let ghost post = ExpState {
                body: views_of(body@),
                used: names_set(used@),
                star: star_opt_view(star),
            };
            match step {
                Some(e) => {
                    proof {
                        assert(step_seg(pre, cur_segs[0]) == Err::<ExpState, ErrView>(e@));
                        assert(run_segs(pre, cur_segs) == Err::<ExpState, ErrView>(e@));
                        assert(target == Err::<ExpState, ErrView>(e@));
                    }
                    return Err(e);
                },
                None => (),
            }
            proof {
                assert(step_seg(pre, cur_segs[0]) == Ok::<ExpState, ErrView>(post));
                assert(run_segs(pre, cur_segs) == run_segs(post, cur_segs.drop_first()));
            }
            if j >= args.len() {
                proof {
                    assert(run_segs(post, cur_segs.drop_first()) == Ok::<ExpState, ErrView>(post));
                }
                more = false;
            } else {
                i = j + 1;
            }
        }
    } else {
        proof {
            assert(rest.len() == 0);
            assert(segs.len() == 0);
        }
    }
    let ghost walked = ExpState {
        body: views_of(body@),
        used: names_set(used@),
        star: star_opt_view(star),
    };
    proof {
        assert(target == Ok::<ExpState, ErrView>(walked));
    }
    match &star {
        Some(si) => {
            let ghost uset = names_set(used@);
            let ghost cat = names_views(decl_fields@);
            let ghost goal = append_complement(views_of(body@), si@, cat, uset);
            proof {
                assert(cat.skip(0) =~= cat);
            }
            let mut k: usize = 0;
            while k < decl_fields.len()
                invariant
                    k <= decl_fields@.len(),
                    goal == append_complement(views_of(body@), si@, cat.skip(k as int), uset),
                decreases decl_fields@.len() - k,
            {
                proof {
                    assert(cat.skip(k as int)[0] == decl_fields@[k as int]@);
                    assert(cat.skip(k as int).drop_first() =~= cat.skip(k + 1));
                }
                if !names_contain(&used, decl_fields[k].as_str()) {
                    let ghost body0 = views_of(body@);
                    if body.len() > 0 {
                        body.push(punct_alone(',', 0));
                    }
                    let ghost prefix = body@;
                    proof {
                        if body0.len() == 0 {
                            assert(views_of(prefix) =~= body0);
                        } else {
                            assert(views_of(prefix) =~= body0 + seq![comma_view()]);
                        }
                    }
                    let mut p: usize = 0;
                    while p < si.attrs.len()
                        invariant
                            p <= si.attrs@.len(),
                            body@.len() == prefix.len() + p,
                            forall|q: int| 0 <= q < prefix.len() ==> body@[q] == prefix[q],
                            forall|q: int|
                                0 <= q < p ==> body@[prefix.len() + q]@ == si.attrs@[q]@,
                        decreases si.attrs@.len() - p,
                    {
                        body.push(duplicate(&si.attrs[p]));
                        p = p + 1;
                    }
                    proof {
                        assert(views_of(body@) =~= views_of(prefix) + views_of(si.attrs@));
                    }
                    match &si.ref_tok {
                        Some(t) => {
                            body.push(duplicate(t));
                        },
                        None => (),
                    }
                    match &si.mut_tok {
                        Some(t) => {
                            body.push(duplicate(t));
                        },
                        None => (),
                    }
                    body.push(Token::Ident { text: decl_fields[k].clone(), span: si.span });
                    proof {
                        assert(views_of(body@) =~= joined(body0, star_field(si@, cat[k as int])));
                    }
                } else {
                    proof {
                        assert(uset.contains(cat.skip(k as int)[0]));
                    }
                }
                k = k + 1;
            }
            proof {
                assert(cat.skip(decl_fields@.len() as int) =~= Seq::<Seq<char>>::empty());
                assert(goal == views_of(body@));
            }
            let grp = crate::token::group(Delim::Brace, body, 0);
            let mut out: Vec<Token> = Vec::new();
            let ghost namev = name@;
            out.push(name);
            out.push(grp);
            proof {
                assert(views_of(out@) =~~= seq![
                    namev,
                    TokenView::Group { delim: Delim::Brace, body: goal, span: 0 },
                ]);
            }
            Ok(out)
        },
        None => {
            let grp = crate::token::group(Delim::Brace, body, 0);
            let mut out: Vec<Token> = Vec::new();
            let ghost namev = name@;
            out.push(name);
            out.push(grp);
            proof {
                assert(views_of(out@) =~~= seq![
                    namev,
                    TokenView::Group { delim: Delim::Brace, body: walked.body, span: 0 },
                ]);
            }
            Ok(out)
        },
    }
}

} // verus!
