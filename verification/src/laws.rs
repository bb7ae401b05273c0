use crate::cursor::attrs_prefix_len;
use crate::cursor::vis_prefix_len;
use crate::declare::declare_views;
use crate::diag::ErrView;
use crate::diag::ErrorKind;
use crate::expand::ExpState;
use crate::expand::StarView;
use crate::expand::append_complement;
use crate::expand::init_state;
use crate::expand::invoke_views;
use crate::expand::joined;
use crate::expand::run_segs;
use crate::expand::seg_is_explicit;
use crate::expand::seg_is_wild;
use crate::expand::seg_name;
use crate::expand::seg_star;
use crate::expand::segs_of;
use crate::expand::star_field;
use crate::expand::step_seg;
use crate::token::Delim;
use crate::token::TokenView;
use vstd::prelude::*;

verus! {

/// The field actions a run of explicit segments emits: each segment
/// verbatim, comma-joined onto what was already emitted.
pub open spec fn emitted_actions(body: Seq<TokenView>, segs: Seq<Seq<TokenView>>) -> Seq<
    TokenView,
>
    decreases segs.len(),
{
    if segs.len() == 0 {
        body
    } else {
        emitted_actions(joined(body, segs[0]), segs.drop_first())
    }
}

/// The names the explicit segments of an invocation use.
pub open spec fn explicit_names(segs: Seq<Seq<TokenView>>) -> Set<Seq<char>> {
    Set::new(
        |n: Seq<char>|
            exists|i: int|
                0 <= i < segs.len() && seg_is_explicit(#[trigger] segs[i]) && seg_name(segs[i])
                    == n,
    )
}

proof fn lemma_explicit_names_cons(segs: Seq<Seq<TokenView>>)
    requires
        segs.len() > 0,
    ensures
        seg_is_explicit(segs[0]) ==> explicit_names(segs) == explicit_names(
            segs.drop_first(),
        ).insert(seg_name(segs[0])),
        !seg_is_explicit(segs[0]) ==> explicit_names(segs) == explicit_names(segs.drop_first()),
{
    let tail = segs.drop_first();
    assert forall|n: Seq<char>| explicit_names(tail).contains(n) implies explicit_names(
        segs,
    ).contains(n) by {
        let i = choose|i: int|
            0 <= i < tail.len() && seg_is_explicit(#[trigger] tail[i]) && seg_name(tail[i]) == n;
        assert(segs[i + 1] == tail[i]);
        assert(seg_is_explicit(segs[i + 1]) && seg_name(segs[i + 1]) == n);
    }
    assert forall|n: Seq<char>|
        explicit_names(segs).contains(n) && !(seg_is_explicit(segs[0]) && seg_name(segs[0])
            == n) implies explicit_names(tail).contains(n) by {
        let i = choose|i: int|
            0 <= i < segs.len() && seg_is_explicit(#[trigger] segs[i]) && seg_name(segs[i]) == n;
        assert(i != 0);
        assert(tail[i - 1] == segs[i]);
        assert(seg_is_explicit(tail[i - 1]) && seg_name(tail[i - 1]) == n);
    }
    if seg_is_explicit(segs[0]) {
        assert(explicit_names(segs) =~= explicit_names(tail).insert(seg_name(segs[0])));
    } else {
        assert(explicit_names(segs) =~= explicit_names(tail));
    }
}

proof fn lemma_run_explicit(st: ExpState, segs: Seq<Seq<TokenView>>)
    requires
        forall|i: int| 0 <= i < segs.len() ==> seg_is_explicit(#[trigger] segs[i]),
    ensures
        run_segs(st, segs) == Ok::<ExpState, ErrView>(
            ExpState {
                body: emitted_actions(st.body, segs),
                used: st.used.union(explicit_names(segs)),
                star: st.star,
            },
        ),
    decreases segs.len(),
{
    if segs.len() == 0 {
        assert(st.used.union(explicit_names(segs)) =~= st.used);
        assert(st == ExpState {
            body: emitted_actions(st.body, segs),
            used: st.used.union(explicit_names(segs)),
            star: st.star,
        });
    } else {
        let st2 = ExpState {
            body: joined(st.body, segs[0]),
            used: st.used.insert(seg_name(segs[0])),
            star: st.star,
        };
        assert(step_seg(st, segs[0]) == Ok::<ExpState, ErrView>(st2));
        lemma_run_explicit(st2, segs.drop_first());
        lemma_explicit_names_cons(segs);
        assert(st2.used.union(explicit_names(segs.drop_first())) =~= st.used.union(
            explicit_names(segs),
        ));
    }
}

/// For every catalog and every invocation whose segments all name fields
/// explicitly, the expansion succeeds, lists exactly those field actions in
/// input order, comma-joined, and synthesizes no field.
pub proof fn lemma_explicit_only(
    name: TokenView,
    catalog: Seq<Seq<char>>,
    args: Seq<TokenView>,
)
    requires
        forall|i: int|
            0 <= i < segs_of(args).len() ==> seg_is_explicit(#[trigger] segs_of(args)[i]),
    ensures
        invoke_views(name, catalog, args) == Ok::<Seq<TokenView>, ErrView>(
            seq![
                name,
                TokenView::Group {
                    delim: Delim::Brace,
                    body: emitted_actions(Seq::empty(), segs_of(args)),
                    span: 0,
                },
            ],
        ),
{
    lemma_run_explicit(init_state(), segs_of(args));
}

proof fn lemma_run_one_wild(st: ExpState, segs: Seq<Seq<TokenView>>, w: int)
    requires
        st.star is None,
        0 <= w < segs.len(),
        seg_is_wild(segs[w]),
        forall|i: int| 0 <= i < segs.len() && i != w ==> seg_is_explicit(#[trigger] segs[i]),
    ensures
        run_segs(st, segs) == Ok::<ExpState, ErrView>(
            ExpState {
                body: emitted_actions(st.body, segs.remove(w)),
                used: st.used.union(explicit_names(segs)),
                star: Some(seg_star(segs[w])),
            },
        ),
    decreases segs.len(),
{
    let tail = segs.drop_first();
    if w == 0 {
        let st2 = ExpState { body: st.body, used: st.used, star: Some(seg_star(segs[0])) };
        assert(step_seg(st, segs[0]) == Ok::<ExpState, ErrView>(st2));
        lemma_run_explicit(st2, tail);
        lemma_explicit_names_cons(segs);
        assert(segs.remove(0) =~= tail);
    } else {
        let st2 = ExpState {
            body: joined(st.body, segs[0]),
            used: st.used.insert(seg_name(segs[0])),
            star: st.star,
        };
        assert(step_seg(st, segs[0]) == Ok::<ExpState, ErrView>(st2));
        assert(tail[w - 1] == segs[w]);
        assert(forall|i: int|
            0 <= i < tail.len() && i != w - 1 ==> seg_is_explicit(#[trigger] tail[i]));
        lemma_run_one_wild(st2, tail, w - 1);
        lemma_explicit_names_cons(segs);
        assert(st2.used.union(explicit_names(tail)) =~= st.used.union(explicit_names(segs)));
        assert(segs.remove(w)[0] == segs[0]);
        assert(segs.remove(w).drop_first() =~= tail.remove(w - 1));
    }
}

/// The catalog names not explicitly used, once each, in catalog order.
pub open spec fn complement(catalog: Seq<Seq<char>>, used: Set<Seq<char>>) -> Seq<Seq<char>>
    decreases catalog.len(),
{
    if catalog.len() == 0 {
        Seq::empty()
    } else if used.contains(catalog[0]) {
        complement(catalog.drop_first(), used)
    } else {
        seq![catalog[0]] + complement(catalog.drop_first(), used)
    }
}

/// A name stands in the complement exactly when the catalog holds it and no
/// explicit action used it; a catalog without repeated names yields a
/// complement without repeated names.
pub proof fn lemma_complement_names(catalog: Seq<Seq<char>>, used: Set<Seq<char>>)
    ensures
        forall|n: Seq<char>|
            #[trigger] complement(catalog, used).contains(n) <==> catalog.contains(n)
                && !used.contains(n),
        catalog.no_duplicates() ==> complement(catalog, used).no_duplicates(),
    decreases catalog.len(),
{
    if catalog.len() > 0 {
        let tail = catalog.drop_first();
        lemma_complement_names(tail, used);
        assert(forall|n: Seq<char>| #[trigger] tail.contains(n) ==> catalog.contains(n));
        assert forall|n: Seq<char>|
            catalog.contains(n) && !used.contains(n) implies #[trigger] complement(
            catalog,
            used,
        ).contains(n) by {
            let i = choose|i: int| 0 <= i < catalog.len() && catalog[i] == n;
            if i > 0 {
                assert(tail[i - 1] == n);
                assert(tail.contains(n));
                assert(complement(tail, used).contains(n));
                let j = choose|j: int| 0 <= j < complement(tail, used).len() && complement(
                    tail,
                    used,
                )[j] == n;
                if used.contains(catalog[0]) {
                    assert(complement(catalog, used) == complement(tail, used));
                    assert(complement(catalog, used)[j] == n);
                } else {
                    assert(complement(catalog, used) == seq![catalog[0]] + complement(tail, used));
                    assert(complement(catalog, used)[j + 1] == n);
                }
            } else {
                assert(n == catalog[0]);
                assert(!used.contains(catalog[0]));
                assert(complement(catalog, used)[0] == n);
            }
        }
        assert forall|n: Seq<char>|
            #[trigger] complement(catalog, used).contains(n) implies catalog.contains(n)
            && !used.contains(n) by {
            let j = choose|j: int| 0 <= j < complement(catalog, used).len() && complement(
                catalog,
                used,
            )[j] == n;
            if used.contains(catalog[0]) {
                assert(complement(tail, used)[j] == n);
                assert(complement(tail, used).contains(n));
            } else {
                if j == 0 {
                } else {
                    assert(complement(tail, used)[j - 1] == n);
                    assert(complement(tail, used).contains(n));
                }
            }
        }
        if catalog.no_duplicates() {
            assert(tail.no_duplicates());
            if !used.contains(catalog[0]) {
                assert(!tail.contains(catalog[0]));
                assert(!complement(tail, used).contains(catalog[0]));
                assert(complement(catalog, used).no_duplicates());
            }
        }
    }
}

/// Resolving the wildcard against the catalog appends exactly one
/// synthesized action per complement name, in complement order.
pub proof fn lemma_append_is_complement(
    body: Seq<TokenView>,
    st: StarView,
    names: Seq<Seq<char>>,
    used: Set<Seq<char>>,
)
    ensures
        append_complement(body, st, names, used) == append_complement(
            body,
            st,
            complement(names, used),
            Set::empty(),
        ),
    decreases names.len(),
{
    if names.len() > 0 {
        let tail = names.drop_first();
        if used.contains(names[0]) {
            lemma_append_is_complement(body, st, tail, used);
        } else {
            lemma_append_is_complement(joined(body, star_field(st, names[0])), st, tail, used);
            let c = complement(names, used);
            assert(c[0] == names[0]);
            assert(c.drop_first() =~= complement(tail, used));
        }
    }
}

/// With exactly one wildcard among otherwise explicit segments, the
/// expansion succeeds; the explicit actions render as given, in input order,
/// and after them every catalog field not explicitly used renders as the
/// wildcard's modifiers applied to the bare field name, once each, in
/// catalog order.
pub proof fn lemma_single_wildcard(
    name: TokenView,
    catalog: Seq<Seq<char>>,
    args: Seq<TokenView>,
    w: int,
)
    requires
        0 <= w < segs_of(args).len(),
        seg_is_wild(segs_of(args)[w]),
        forall|i: int|
            0 <= i < segs_of(args).len() && i != w ==> seg_is_explicit(#[trigger] segs_of(args)[i]),
    ensures
        invoke_views(name, catalog, args) == Ok::<Seq<TokenView>, ErrView>(
            seq![
                name,
                TokenView::Group {
                    delim: Delim::Brace,
                    body: append_complement(
                        emitted_actions(Seq::empty(), segs_of(args).remove(w)),
                        seg_star(segs_of(args)[w]),
                        complement(catalog, explicit_names(segs_of(args))),
                        Set::empty(),
                    ),
                    span: 0,
                },
            ],
        ),
{
    let segs = segs_of(args);
    lemma_run_one_wild(init_state(), segs, w);
    assert(Set::<Seq<char>>::empty().union(explicit_names(segs)) =~= explicit_names(segs));
    lemma_append_is_complement(
        emitted_actions(Seq::empty(), segs.remove(w)),
        seg_star(segs[w]),
        catalog,
        explicit_names(segs),
    );
}

/// A wildcard's modifiers reach every field it expands to: with `ref` and
/// `mut` on the wildcard, each synthesized action is `ref mut` before the
/// bare field name; with a bare wildcard, each synthesized action is the
/// bare field name alone.
pub proof fn lemma_wildcard_modifiers(st: StarView, n: Seq<char>)
    ensures
        (st.ref_tok matches Some(r) && st.mut_tok matches Some(m)) ==> star_field(st, n)
            == st.attrs + seq![
            st.ref_tok->0,
            st.mut_tok->0,
            TokenView::Ident { text: n, span: st.span },
        ],
        (st.ref_tok is None && st.mut_tok is None) ==> star_field(st, n) == st.attrs + seq![
            TokenView::Ident { text: n, span: st.span },
        ],
{
    if st.ref_tok is Some && st.mut_tok is Some {
        assert(star_field(st, n) =~= st.attrs + seq![
            st.ref_tok->0,
            st.mut_tok->0,
            TokenView::Ident { text: n, span: st.span },
        ]);
    }
    if st.ref_tok is None && st.mut_tok is None {
        assert(star_field(st, n) =~= st.attrs + seq![TokenView::Ident { text: n, span: st.span }]);
    }
}

proof fn lemma_run_second_wild_fails(st: ExpState, segs: Seq<Seq<TokenView>>, v: int, w: int)
    requires
        0 <= v < w < segs.len(),
        seg_is_wild(segs[v]),
        seg_is_wild(segs[w]),
        forall|i: int|
            0 <= i < segs.len() ==> seg_is_wild(#[trigger] segs[i]) || seg_is_explicit(segs[i]),
    ensures
        run_segs(st, segs) matches Err(e) && e.kind == ErrorKind::DuplicateWildcard,
    decreases segs.len(),
{
    let tail = segs.drop_first();
    if seg_is_wild(segs[0]) {
        if st.star is Some {
        } else {
            let st2 = ExpState { body: st.body, used: st.used, star: Some(seg_star(segs[0])) };
            if v == 0 {
                lemma_run_first_wild_fails(st2, tail, w - 1);
            } else {
                lemma_run_second_wild_fails(st2, tail, v - 1, w - 1);
            }
        }
    } else {
        let st2 = ExpState {
            body: joined(st.body, segs[0]),
            used: st.used.insert(seg_name(segs[0])),
            star: st.star,
        };
        assert(v != 0);
        lemma_run_second_wild_fails(st2, tail, v - 1, w - 1);
    }
}

proof fn lemma_run_first_wild_fails(st: ExpState, segs: Seq<Seq<TokenView>>, w: int)
    requires
        st.star is Some,
        0 <= w < segs.len(),
        seg_is_wild(segs[w]),
        forall|i: int|
            0 <= i < segs.len() ==> seg_is_wild(#[trigger] segs[i]) || seg_is_explicit(segs[i]),
    ensures
        run_segs(st, segs) matches Err(e) && e.kind == ErrorKind::DuplicateWildcard,
    decreases segs.len(),
{
    if seg_is_wild(segs[0]) {
    } else {
        let st2 = ExpState {
            body: joined(st.body, segs[0]),
            used: st.used.insert(seg_name(segs[0])),
            star: st.star,
        };
        assert(w != 0);
        lemma_run_first_wild_fails(st2, segs.drop_first(), w - 1);
    }
}

/// Two wildcards in one invocation always fail with the duplicate-wildcard
/// refusal, whatever the catalog.
pub proof fn lemma_duplicate_wildcard(
    name: TokenView,
    catalog: Seq<Seq<char>>,
    args: Seq<TokenView>,
    v: int,
    w: int,
)
    requires
        0 <= v < w < segs_of(args).len(),
        seg_is_wild(segs_of(args)[v]),
        seg_is_wild(segs_of(args)[w]),
        forall|i: int|
            0 <= i < segs_of(args).len() ==> seg_is_wild(#[trigger] segs_of(args)[i])
                || seg_is_explicit(segs_of(args)[i]),
    ensures
        invoke_views(name, catalog, args) matches Err(e) && e.kind
            == ErrorKind::DuplicateWildcard,
{
    lemma_run_second_wild_fails(init_state(), segs_of(args), v, w);
}

/// A unit-like declaration — nothing between the record's name and the
/// closing semicolon — is always refused, and no rule is emitted.
pub proof fn lemma_unit_like_refused(ts: Seq<TokenView>)
    requires
        ({
            let after_attrs = ts.skip(attrs_prefix_len(ts) as int);
            let rest = after_attrs.skip(vis_prefix_len(after_attrs) as int);
            &&& rest.len() == 3
            &&& rest[0].is_word("struct"@)
            &&& rest[1] matches TokenView::Ident { .. }
            &&& rest[2].is_punct(';')
        }),
    ensures
        declare_views(ts) matches Err(e) && e.kind == ErrorKind::UnsupportedDeclarationKind,
{
}

/// A tuple-like declaration — a parenthesized body before the closing
/// semicolon — is always refused, and no rule is emitted.
pub proof fn lemma_tuple_like_refused(ts: Seq<TokenView>)
    requires
        ({
            let after_attrs = ts.skip(attrs_prefix_len(ts) as int);
            let rest = after_attrs.skip(vis_prefix_len(after_attrs) as int);
            &&& rest.len() == 4
            &&& rest[0].is_word("struct"@)
            &&& rest[1] matches TokenView::Ident { .. }
            &&& rest[2].is_group(Delim::Paren)
            &&& rest[3].is_punct(';')
        }),
    ensures
        declare_views(ts) matches Err(e) && e.kind == ErrorKind::UnsupportedDeclarationKind,
{
}

} // verus!
