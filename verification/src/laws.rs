//! General properties of the parser, stated and proved once and for all.
//!
//! Each law speaks about the spec-level model of parsing
//! ([`parse_header_spec`] and [`parse_spec`]), which the executable
//! functions in [`crate::commit`] are proved to implement exactly.

use vstd::prelude::*;

use crate::commit::{
    footer_section, header_section, parse_header_spec, parse_spec, CommitParts, HeaderParts,
    ParseError,
};
use crate::text::{
    lemma_index_of_first_none, lemma_index_of_first_position, lemma_split_sections_len,
    lemma_subrange_not_contains, lemma_trim_idempotent, lemma_trim_leading_blank,
    lemma_trim_not_contains, trim_spec,
};

verus! {

/// The canonical serialization of a parsed header:
/// `type(scope): description` when a scope is present,
/// `type: description` otherwise.
pub open spec fn canonical_header(p: HeaderParts) -> Seq<char> {
    match p.scope {
        Some(sc) => p.commit_type + seq!['('] + sc + seq![')', ':', ' '] + p.description,
        None => p.commit_type + seq![':', ' '] + p.description,
    }
}

/// Every header of the form `type(scope): description` whose pieces do not
/// collide with the delimiters, and whose scope is non-blank, parses
/// successfully into exactly the trimmed type, scope and description.
pub proof fn lemma_header_with_scope(t: Seq<char>, sc: Seq<char>, d: Seq<char>)
    requires
        !t.contains(':'),
        !t.contains('('),
        !sc.contains(':'),
        !sc.contains(')'),
        trim_spec(sc).len() > 0,
    ensures
        (parse_header_spec(t + seq!['('] + sc + seq![')', ':', ' '] + d) == Ok::<
            HeaderParts,
            ParseError,
        >(
            HeaderParts {
                commit_type: trim_spec(t),
                scope: Some(trim_spec(sc)),
                description: trim_spec(d),
            },
        )),
{
    let h = t + seq!['('] + sc + seq![')', ':', ' '] + d;
    let tl = t.len() as int;
    let sl = sc.len() as int;
    let ci = tl + 1 + sl + 1;
    assert(h.len() == tl + 1 + sl + 3 + d.len());
    assert(h[ci] == ':');
    assert forall|j: int| 0 <= j < ci implies h[j] != ':' by {
        if j < tl {
            assert(h[j] == t[j]);
        } else if j == tl {
            assert(h[j] == '(');
        } else if j < tl + 1 + sl {
            assert(h[j] == sc[j - tl - 1]);
        } else {
            assert(h[j] == ')');
        }
    }
    lemma_index_of_first_position(h, ':', ci);
    let meta = h.take(ci);
    assert(meta =~= t + seq!['('] + sc + seq![')']);
    assert(meta[tl] == '(');
    assert forall|j: int| 0 <= j < tl implies meta[j] != '(' by {
        assert(meta[j] == t[j]);
    }
    lemma_index_of_first_position(meta, '(', tl);
    let rest = meta.skip(tl + 1);
    assert(rest =~= sc + seq![')']);
    assert(rest[sl] == ')');
    assert forall|j: int| 0 <= j < sl implies rest[j] != ')' by {
        assert(rest[j] == sc[j]);
    }
    lemma_index_of_first_position(rest, ')', sl);
    assert(rest.take(sl) =~= sc);
    assert(meta.take(tl) =~= t);
    assert(h.skip(ci + 1) =~= seq![' '] + d);
    lemma_trim_leading_blank(' ', d);
}

/// Every header of the form `type: description` (no parentheses) whose type
/// contains neither `:` nor `(` parses successfully with no scope and
/// exactly the trimmed type and description.
pub proof fn lemma_header_without_scope(t: Seq<char>, d: Seq<char>)
    requires
        !t.contains(':'),
        !t.contains('('),
    ensures
        (parse_header_spec(t + seq![':', ' '] + d) == Ok::<HeaderParts, ParseError>(
            HeaderParts { commit_type: trim_spec(t), scope: None, description: trim_spec(d) },
        )),
{
    let h = t + seq![':', ' '] + d;
    let tl = t.len() as int;
    assert(h[tl] == ':');
    assert forall|j: int| 0 <= j < tl implies h[j] != ':' by {
        assert(h[j] == t[j]);
    }
    lemma_index_of_first_position(h, ':', tl);
    let meta = h.take(tl);
    assert(meta =~= t);
    assert forall|j: int| 0 <= j < meta.len() implies meta[j] != '(' by {
        assert(meta[j] == t[j]);
    }
    lemma_index_of_first_none(meta, '(');
    assert(h.skip(tl + 1) =~= seq![' '] + d);
    lemma_trim_leading_blank(' ', d);
}

/// A header without a `:` fails to parse with `MissingColon`.
pub proof fn lemma_missing_colon(h: Seq<char>)
    requires
        !h.contains(':'),
    ensures
        parse_header_spec(h) == Err::<HeaderParts, ParseError>(ParseError::MissingColon),
{
    h.index_of_first_ensures(':');
    if h.index_of_first(':') is Some {
        assert(false);
    }
}

/// An input whose trimmed header section has no `:` fails to parse with
/// `MissingColon`.
pub proof fn lemma_parse_missing_colon(s: Seq<char>)
    requires
        !header_section(s).contains(':'),
    ensures
        parse_spec(s) == Err::<CommitParts, ParseError>(ParseError::MissingColon),
{
    lemma_split_sections_len(s);
    lemma_missing_colon(header_section(s));
}

/// A header whose part before the first `:` has an opening `(` with no `)`
/// after it fails to parse with `MissingClosingParen`.
pub proof fn lemma_missing_closing_paren(h: Seq<char>, ci: int, pi: int)
    requires
        h.index_of_first(':') == Some(ci),
        h.take(ci).index_of_first('(') == Some(pi),
        h.take(ci).skip(pi + 1).index_of_first(')') is None,
    ensures
        parse_header_spec(h) == Err::<HeaderParts, ParseError>(ParseError::MissingClosingParen),
{
}

/// A header whose parenthesized scope is blank after trimming fails to
/// parse with `EmptyScope`.
pub proof fn lemma_empty_scope(h: Seq<char>, ci: int, pi: int, off: int)
    requires
        h.index_of_first(':') == Some(ci),
        h.take(ci).index_of_first('(') == Some(pi),
        h.take(ci).skip(pi + 1).index_of_first(')') == Some(off),
        trim_spec(h.take(ci).skip(pi + 1).take(off)).len() == 0,
    ensures
        parse_header_spec(h) == Err::<HeaderParts, ParseError>(ParseError::EmptyScope),
{
}

/// An input whose trimmed header section has an opening `(` before the
/// first `:` with no `)` after it fails to parse with `MissingClosingParen`.
pub proof fn lemma_parse_missing_closing_paren(s: Seq<char>, ci: int, pi: int)
    requires
        header_section(s).index_of_first(':') == Some(ci),
        header_section(s).take(ci).index_of_first('(') == Some(pi),
        header_section(s).take(ci).skip(pi + 1).index_of_first(')') is None,
    ensures
        parse_spec(s) == Err::<CommitParts, ParseError>(ParseError::MissingClosingParen),
{
    lemma_split_sections_len(s);
    lemma_missing_closing_paren(header_section(s), ci, pi);
}

/// An input whose trimmed header section has a parenthesized scope that is
/// blank after trimming fails to parse with `EmptyScope`.
pub proof fn lemma_parse_empty_scope(s: Seq<char>, ci: int, pi: int, off: int)
    requires
        header_section(s).index_of_first(':') == Some(ci),
        header_section(s).take(ci).index_of_first('(') == Some(pi),
        header_section(s).take(ci).skip(pi + 1).index_of_first(')') == Some(off),
        trim_spec(header_section(s).take(ci).skip(pi + 1).take(off)).len() == 0,
    ensures
        parse_spec(s) == Err::<CommitParts, ParseError>(ParseError::EmptyScope),
{
    lemma_split_sections_len(s);
    lemma_empty_scope(header_section(s), ci, pi, off);
}

/// A successfully parsed commit is breaking exactly when a footer section
/// exists (non-blank after trimming) and contains the marker `!`; in
/// particular a commit without a footer is never breaking, whatever the
/// header or body contain.
pub proof fn lemma_breaking_iff_footer_marker(s: Seq<char>)
    requires
        parse_spec(s) is Ok,
    ensures
        ({
            let p = parse_spec(s)->Ok_0;
            &&& p.footer == footer_section(s)
            &&& (p.breaking <==> (p.footer is Some && p.footer->Some_0.contains('!')))
            &&& (p.footer is None ==> !p.breaking)
        }),
{
}

/// Every field of a successfully parsed header is already trimmed, and none
/// contains the delimiter that ended it: the type has no `:` and no `(`, and
/// the scope, when present, is non-empty and has no `:` and no `)`.
pub proof fn lemma_parse_header_ok_shape(h: Seq<char>)
    requires
        parse_header_spec(h) is Ok,
    ensures
        ({
            let p = parse_header_spec(h)->Ok_0;
            &&& p.commit_type == trim_spec(p.commit_type)
            &&& !p.commit_type.contains(':')
            &&& !p.commit_type.contains('(')
            &&& p.description == trim_spec(p.description)
            &&& match p.scope {
                Some(sc) => {
                    &&& sc == trim_spec(sc)
                    &&& sc.len() > 0
                    &&& !sc.contains(':')
                    &&& !sc.contains(')')
                },
                None => true,
            }
        }),
{
    h.index_of_first_ensures(':');
    let ci = h.index_of_first(':')->Some_0;
    let meta = h.take(ci);
    assert(meta =~= h.subrange(0, ci));
    lemma_subrange_not_contains(h, ':', 0, ci);
    lemma_trim_idempotent(h.skip(ci + 1));
    meta.index_of_first_ensures('(');
    match meta.index_of_first('(') {
        None => {
            lemma_trim_idempotent(meta);
            lemma_trim_not_contains(meta, ':');
            lemma_trim_not_contains(meta, '(');
        },
        Some(pi) => {
            let head = meta.take(pi);
            assert(head =~= meta.subrange(0, pi));
            lemma_trim_idempotent(head);
            assert forall|j: int| 0 <= j < head.len() implies head[j] != ':' by {
                assert(head[j] == meta[j]);
            }
            assert(!head.contains(':'));
            lemma_subrange_not_contains(meta, '(', 0, pi);
            lemma_trim_not_contains(head, ':');
            lemma_trim_not_contains(head, '(');
            let rest = meta.skip(pi + 1);
            rest.index_of_first_ensures(')');
            match rest.index_of_first(')') {
                None => {
                    assert(false);
                },
                Some(off) => {
                    let raw = rest.take(off);
                    assert(raw =~= rest.subrange(0, off));
                    lemma_subrange_not_contains(rest, ')', 0, off);
                    assert forall|j: int| 0 <= j < raw.len() implies raw[j] != ':' by {
                        assert(raw[j] == rest[j]);
                        assert(rest[j] == meta[pi + 1 + j]);
                    }
                    assert(!raw.contains(':'));
                    lemma_trim_idempotent(raw);
                    lemma_trim_not_contains(raw, ':');
                    lemma_trim_not_contains(raw, ')');
                },
            }
        },
    }
}

/// Round trip: re-parsing the canonical serialization of a successfully
/// parsed header yields the very same type, scope and description.
pub proof fn lemma_reparse_canonical_header(h: Seq<char>)
    requires
        parse_header_spec(h) is Ok,
    ensures
        parse_header_spec(canonical_header(parse_header_spec(h)->Ok_0)) == parse_header_spec(h),
{
    let p = parse_header_spec(h)->Ok_0;
    lemma_parse_header_ok_shape(h);
    match p.scope {
        Some(sc) => {
            lemma_header_with_scope(p.commit_type, sc, p.description);
        },
        None => {
            lemma_header_without_scope(p.commit_type, p.description);
        },
    }
}

} // verus!
