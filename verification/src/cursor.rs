use crate::token::Delim;
use crate::token::Token;
use crate::token::TokenView;
use crate::token::duplicate;
use crate::token::views_of;
use vstd::prelude::*;

verus! {

/// How many leading tokens form attribute annotations: each annotation is a
/// `#` punctuation immediately followed by a bracket-delimited group.
pub open spec fn attrs_prefix_len(ts: Seq<TokenView>) -> nat
    decreases ts.len(),
{
    if ts.len() >= 2 && ts[0].is_punct('#') && ts[1].is_group(Delim::Bracket) {
        (2 + attrs_prefix_len(ts.skip(2))) as nat
    } else {
        0
    }
}

pub proof fn lemma_attrs_prefix_le(ts: Seq<TokenView>)
    ensures
        attrs_prefix_len(ts) <= ts.len(),
    decreases ts.len(),
{
    if ts.len() >= 2 && ts[0].is_punct('#') && ts[1].is_group(Delim::Bracket) {
        lemma_attrs_prefix_le(ts.skip(2));
    }
}

/// The word that marks the generated rule for public export.
pub open spec fn export_marker() -> Seq<char> {
    "fields_glob_export_macro"@
}

/// The attribute's bracket group opens with the given word.
pub open spec fn group_opens_with(t: TokenView, w: Seq<char>) -> bool {
    t matches TokenView::Group { body, .. } && body.len() > 0 && body[0].is_word(w)
}

/// Some leading attribute carries the export marker as its first word.
pub open spec fn export_in_attrs(ts: Seq<TokenView>) -> bool
    decreases ts.len(),
{
    if ts.len() >= 2 && ts[0].is_punct('#') && ts[1].is_group(Delim::Bracket) {
        group_opens_with(ts[1], export_marker()) || export_in_attrs(ts.skip(2))
    } else {
        false
    }
}

/// How many leading tokens form a visibility qualifier: the word `pub`,
/// optionally followed by a parenthesized restriction group.
pub open spec fn vis_prefix_len(ts: Seq<TokenView>) -> nat {
    if ts.len() >= 1 && ts[0].is_word("pub"@) {
        if ts.len() >= 2 && ts[1].is_group(Delim::Paren) {
            2
        } else {
            1
        }
    } else {
        0
    }
}

/// Splits a token sequence into the segments between its commas. A comma
/// inside a group is part of that group token and never splits. Every
/// sequence yields at least one segment; an empty sequence yields one empty
/// segment.
pub open spec fn split_commas(ts: Seq<TokenView>) -> Seq<Seq<TokenView>>
    decreases ts.len(),
{
    if ts.len() == 0 {
        seq![Seq::<TokenView>::empty()]
    } else if ts[0].is_punct(',') {
        seq![Seq::<TokenView>::empty()] + split_commas(ts.drop_first())
    } else {
        let rest = split_commas(ts.drop_first());
        seq![seq![ts[0]] + rest[0]] + rest.drop_first()
    }
}

pub proof fn lemma_split_commas_nonempty(ts: Seq<TokenView>)
    ensures
        split_commas(ts).len() >= 1,
    decreases ts.len(),
{
    if ts.len() > 0 && !ts[0].is_punct(',') {
        lemma_split_commas_nonempty(ts.drop_first());
    }
}

/// The first segment of a split is the run of tokens up to the first comma,
/// and the remaining segments are the split of what follows that comma.
pub proof fn lemma_split_first_segment(ts: Seq<TokenView>, j: int)
    requires
        0 <= j <= ts.len(),
        forall|k: int| 0 <= k < j ==> !(#[trigger] ts[k]).is_punct(','),
        j < ts.len() ==> ts[j].is_punct(','),
    ensures
        j == ts.len() ==> split_commas(ts) == seq![ts],
        j < ts.len() ==> split_commas(ts) == seq![ts.take(j)] + split_commas(ts.skip(j + 1)),
    decreases j,
{
    lemma_split_commas_nonempty(ts);
    if j == 0 {
        if ts.len() == 0 {
            assert(ts =~= Seq::<TokenView>::empty());
            assert(split_commas(ts) =~= seq![ts]);
        } else {
            assert(ts.take(0) =~= Seq::<TokenView>::empty());
            assert(ts.skip(1) =~= ts.drop_first());
            assert(split_commas(ts) =~= seq![ts.take(0)] + split_commas(ts.skip(1)));
        }
    } else {
        let tail = ts.drop_first();
        assert(forall|k: int| 0 <= k < j - 1 ==> !(#[trigger] tail[k]).is_punct(','));
        lemma_split_first_segment(tail, j - 1);
        lemma_split_commas_nonempty(tail);
        if j == ts.len() {
            assert(split_commas(tail) == seq![tail]);
            assert(seq![ts[0]] + tail =~= ts);
            assert(split_commas(ts) =~= seq![ts]);
        } else {
            assert(seq![ts[0]] + tail.take(j - 1) =~= ts.take(j));
            assert(tail.skip(j) =~= ts.skip(j + 1));
            assert((seq![seq![ts[0]] + split_commas(tail)[0]] + split_commas(tail).drop_first())
                =~= seq![ts.take(j)] + split_commas(ts.skip(j + 1)));
        }
    }
}

/// Index just past the attribute annotations that begin at `start`.
#[verifier::loop_isolation(false)]
pub fn skip_attributes(ts: &Vec<Token>, start: usize) -> (r: usize)
    requires
        start <= ts@.len(),
    ensures
        start <= r <= ts@.len(),
        r - start == attrs_prefix_len(views_of(ts@).skip(start as int)),
{
    let ghost vs = views_of(ts@);
    let mut i = start;
    while i < ts.len() && i + 1 < ts.len() && ts[i].is_punct_ch('#') && ts[i + 1].is_group_kind(
        Delim::Bracket,
    )
        invariant
            start <= i <= ts@.len(),
            attrs_prefix_len(vs.skip(start as int)) == i - start + attrs_prefix_len(
                vs.skip(i as int),
            ),
        decreases ts@.len() - i,
    {
        proof {
            assert(vs.skip(i as int)[0] == ts@[i as int]@);
            assert(vs.skip(i as int)[1] == ts@[i + 1 as int]@);
            assert(vs.skip(i as int).skip(2) =~= vs.skip(i + 2 as int));
            lemma_attrs_prefix_le(vs.skip(i + 2 as int));
        }
        i = i + 2;
    }
    proof {
        let suf = vs.skip(i as int);
        if suf.len() >= 2 {
            assert(suf[0] == ts@[i as int]@);
            assert(suf[1] == ts@[i + 1 as int]@);
        }
        assert(attrs_prefix_len(suf) == 0);
    }
    i
}

/// Whether the attribute annotations that begin at `start` carry the export
/// marker.
#[verifier::loop_isolation(false)]
pub fn scan_export(ts: &Vec<Token>, start: usize) -> (r: bool)
    requires
        start <= ts@.len(),
    ensures
        r == export_in_attrs(views_of(ts@).skip(start as int)),
{
    let ghost vs = views_of(ts@);
    let mut i = start;
    let mut found = false;
    while i < ts.len() && i + 1 < ts.len() && ts[i].is_punct_ch('#') && ts[i + 1].is_group_kind(
        Delim::Bracket,
    )
        invariant
            start <= i <= ts@.len(),
            export_in_attrs(vs.skip(start as int)) == (found || export_in_attrs(
                vs.skip(i as int),
            )),
        decreases ts@.len() - i,
    {
        proof {
            assert(vs.skip(i as int)[0] == ts@[i as int]@);
            assert(vs.skip(i as int)[1] == ts@[i + 1 as int]@);
            assert(vs.skip(i as int).skip(2) =~= vs.skip(i + 2 as int));
        }
        match &ts[i + 1] {
            Token::Group { body, .. } => {
                if body.len() > 0 && body[0].is_word_str("fields_glob_export_macro") {
                    proof {
                        assert(ts@[i + 1 as int]@ matches TokenView::Group { body: b, .. }
                            ==> b[0] == body@[0]@);
                    }
                    found = true;
                }
            },
            _ => (),
        }
        i = i + 2;
    }
    proof {
        let suf = vs.skip(i as int);
        if suf.len() >= 2 {
            assert(suf[0] == ts@[i as int]@);
            assert(suf[1] == ts@[i + 1 as int]@);
        }
        assert(!export_in_attrs(suf));
    }
    found
}

/// Index just past the visibility qualifier that begins at `start`.
pub fn skip_visibility(ts: &Vec<Token>, start: usize) -> (r: usize)
    requires
        start <= ts@.len(),
    ensures
        start <= r <= ts@.len(),
        r - start == vis_prefix_len(views_of(ts@).skip(start as int)),
{
    let ghost suf = views_of(ts@).skip(start as int);
    proof {
        if suf.len() >= 1 {
            assert(suf[0] == ts@[start as int]@);
        }
        if suf.len() >= 2 {
            assert(suf[1] == ts@[start + 1 as int]@);
        }
    }
    if start < ts.len() && ts[start].is_word_str("pub") {
        if start + 1 < ts.len() && ts[start + 1].is_group_kind(Delim::Paren) {
            start + 2
        } else {
            start + 1
        }
    } else {
        start
    }
}

/// Index of the first comma at or after `start`, or the sequence's length
/// when none follows.
#[verifier::loop_isolation(false)]
pub fn find_comma(ts: &Vec<Token>, start: usize) -> (j: usize)
    requires
        start <= ts@.len(),
    ensures
        start <= j <= ts@.len(),
        forall|k: int| start <= k < j ==> !(#[trigger] views_of(ts@)[k]).is_punct(','),
        j < ts@.len() ==> views_of(ts@)[j as int].is_punct(','),
{
    let mut i = start;
    while i < ts.len() && !ts[i].is_punct_ch(',')
        invariant
            start <= i <= ts@.len(),
            forall|k: int| start <= k < i ==> !(#[trigger] views_of(ts@)[k]).is_punct(','),
        decreases ts@.len() - i,
    {
        i = i + 1;
    }
    i
}

/// An exact copy of the tokens in the half-open range.
#[verifier::loop_isolation(false)]
pub fn copy_range(ts: &Vec<Token>, start: usize, end: usize) -> (r: Vec<Token>)
    requires
        start <= end <= ts@.len(),
    ensures
        views_of(r@) == views_of(ts@).subrange(start as int, end as int),
{
    let mut out: Vec<Token> = Vec::new();
    let mut i = start;
    while i < end
        invariant
            start <= i <= end,
            out@.len() == i - start,
            forall|k: int| 0 <= k < out@.len() ==> out@[k]@ == ts@[start + k]@,
        decreases end - i,
    {
        out.push(duplicate(&ts[i]));
        i = i + 1;
    }
    proof {
        assert(views_of(out@) =~= views_of(ts@).subrange(start as int, end as int));
    }
    out
}

} // verus!
