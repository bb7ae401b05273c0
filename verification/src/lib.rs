pub mod cursor;
pub mod declare;
pub mod diag;
pub mod emit;
pub mod expand;
pub mod laws;
pub mod token;

use crate::declare::catalog_views;
use crate::declare::declare_views;
use crate::declare::extract_declaration;
use crate::declare::parse_fields_declare;
use crate::diag::ErrView;
use crate::diag::ErrorKind;
use crate::diag::diag_views;
use crate::diag::diagnostic_tokens;
use crate::diag::expand_error;
use crate::emit::emit_template;
use crate::emit::template_views;
use crate::expand::invoke_views;
use crate::expand::parse_fields_use;
use crate::token::Token;
use crate::token::TokenView;
use crate::token::duplicate;
use crate::token::views_of;
use vstd::prelude::*;

verus! {

/// What walking one type declaration yields: the expansion rule for a
/// named-field record, or a located diagnostic and no rule.
pub open spec fn derive_out_views(ts: Seq<TokenView>) -> Seq<TokenView> {
    match declare_views(ts) {
        Ok(d) => template_views(d),
        Err(e) => diag_views(e),
    }
}

/// Derives the expansion rule for one record declaration: extracts the
/// record's name and field-list body, and emits the rule named after the
/// record, or a diagnostic when the declaration is not a named-field record.
pub fn fields_glob_derive(adt: &Vec<Token>) -> (r: Vec<Token>)
    ensures
        views_of(r@) == derive_out_views(views_of(adt@)),
{
    match extract_declaration(adt) {
        Ok(d) => {
            proof {
                assert(d@.name matches TokenView::Ident { .. });
            }
            emit_template(&d)
        },
        Err(e) => diagnostic_tokens(&e),
    }
}

/// What expanding one forwarded invocation yields: the record identifier,
/// its field-list body and the caller's tokens come in fixed order; the
/// expansion, or a located diagnostic, comes out.
pub open spec fn impl_out_views(input: Seq<TokenView>) -> Seq<TokenView> {
    if input.len() < 1 || !(input[0] matches TokenView::Ident { .. }) {
        diag_views(
            ErrView {
                kind: ErrorKind::MalformedDeclaration,
                span: if input.len() >= 1 {
                    Some(input[0].span_of())
                } else {
                    None
                },
                msg: "invalid input, expected struct name"@,
            },
        )
    } else if input.len() < 2 || !(input[1] matches TokenView::Group { .. }) {
        diag_views(
            ErrView {
                kind: ErrorKind::MalformedDeclaration,
                span: if input.len() >= 2 {
                    Some(input[1].span_of())
                } else {
                    None
                },
                msg: "invalid input, expected struct body"@,
            },
        )
    } else {
        match invoke_views(input[0], catalog_views(input[1]->Group_body), input.skip(2)) {
            Ok(o) => o,
            Err(e) => diag_views(e),
        }
    }
}

/// Expands one invocation of a generated rule. The input carries the record
/// identifier, the record's field-list body and the caller's argument
/// tokens; the output is the expanded field list in the record's brace
/// syntax, or a diagnostic in place of the expansion.
pub fn fields_glob_impl(input: &Vec<Token>) -> (r: Vec<Token>)
    ensures
        views_of(r@) == impl_out_views(views_of(input@)),
{
    let ghost vs = views_of(input@);
    if input.len() < 1 {
        return diagnostic_tokens(
            &expand_error(ErrorKind::MalformedDeclaration, None, "invalid input, expected struct name"),
        );
    }
    let name_ok = match &input[0] {
        Token::Ident { .. } => true,
        _ => false,
    };
    if !name_ok {
        return diagnostic_tokens(
            &expand_error(
                ErrorKind::MalformedDeclaration,
                Some(input[0].span_tag()),
                "invalid input, expected struct name",
            ),
        );
    }
    if input.len() < 2 {
        return diagnostic_tokens(
            &expand_error(ErrorKind::MalformedDeclaration, None, "invalid input, expected struct body"),
        );
    }
    match &input[1] {
        Token::Group { body, .. } => {
            let fields = parse_fields_declare(body);
            proof {
                crate::token::lemma_seq_views_is_views_of(body@);
                assert(vs[1]->Group_body == views_of(body@));
            }
            let name = duplicate(&input[0]);
            let args = crate::cursor::copy_range(input, 2, input.len());
            proof {
                assert(views_of(args@) =~= vs.skip(2));
            }
            match parse_fields_use(name, &args, &fields) {
                Ok(out) => out,
                Err(e) => diagnostic_tokens(&e),
            }
        },
        _ => diagnostic_tokens(
            &expand_error(
                ErrorKind::MalformedDeclaration,
                Some(input[1].span_tag()),
                "invalid input, expected struct body",
            ),
        ),
    }
}

} // verus!
