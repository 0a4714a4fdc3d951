//! Parsing of Conventional Commit messages.
//!
//! [`CommitMessage::parse`] splits its input into sections at blank lines
//! (two consecutive line feeds), reads the first section as the header
//! `<type>(<optional scope>): <description>`, and takes the second and third
//! sections, when present and non-blank, as body and footer.  A footer that
//! contains the breaking-change marker `!` anywhere flags the commit as
//! breaking.  The whole behaviour is pinned down by [`parse_spec`].

use vstd::prelude::*;
use vstd::string::StrSliceExecFns;

use crate::text::{
    contains_char, find_char, split_sections, split_sections_spec, trim, trim_spec,
};

pub mod changelog;

verus! {

/// Why parsing a commit message failed.
#[derive(Debug, Clone, Copy, PartialEq, Eq, Structural)]
pub enum ParseError {
    /// The input yielded no sections at all.
    EmptyInput,
    /// The header lacks the `:` that ends the type and scope part.
    MissingColon,
    /// The header has an opening `(` before the `:` with no `)` after it.
    MissingClosingParen,
    /// The header's parenthesized scope is blank after trimming.
    EmptyScope,
}

impl ParseError {
    /// The wording of this error's human-readable message.
    pub open spec fn message_spec(self) -> Seq<char> {
        match self {
            ParseError::EmptyInput => "Empty commit message"@,
            ParseError::MissingColon => "Missing ':' in header"@,
            ParseError::MissingClosingParen => "Missing closing ')' in header"@,
            ParseError::EmptyScope => "Empty scope in header"@,
        }
    }

    /// A human-readable description of the error.
    pub fn message(&self) -> (m: String)
        ensures
            m@ == self.message_spec(),
    {
        match self {
            ParseError::EmptyInput => "Empty commit message".to_owned(),
            ParseError::MissingColon => "Missing ':' in header".to_owned(),
            ParseError::MissingClosingParen => "Missing closing ')' in header".to_owned(),
            ParseError::EmptyScope => "Empty scope in header".to_owned(),
        }
    }
}

/// The mathematical content of a parsed header: the trimmed commit type,
/// the trimmed scope when parentheses were present, and the trimmed
/// description.
pub ghost struct HeaderParts {
    pub commit_type: Seq<char>,
    pub scope: Option<Seq<char>>,
    pub description: Seq<char>,
}

/// The mathematical content of a fully parsed commit message.
pub ghost struct CommitParts {
    pub commit_type: Seq<char>,
    pub scope: Option<Seq<char>>,
    pub description: Seq<char>,
    pub body: Option<Seq<char>>,
    pub footer: Option<Seq<char>>,
    pub breaking: bool,
}

/// What parsing a (already trimmed) header returns.
///
/// The first `:` ends the `meta` part; everything after it, trimmed, is the
/// description.  Within `meta`, a first `(` opens a scope, which runs to the
/// first `)` after it; the scope must be non-blank after trimming.  Only the
/// first `:`, the first `(` and the first `)` after it are honoured.
pub open spec fn parse_header_spec(h: Seq<char>) -> Result<HeaderParts, ParseError> {
    match h.index_of_first(':') {
        None => Err(ParseError::MissingColon),
        Some(ci) => {
            let meta = h.take(ci);
            let description = trim_spec(h.skip(ci + 1));
            match meta.index_of_first('(') {
                None => Ok(
                    HeaderParts {
                        commit_type: trim_spec(meta),
                        scope: None,
                        description,
                    },
                ),
                Some(pi) => {
                    match meta.skip(pi + 1).index_of_first(')') {
                        None => Err(ParseError::MissingClosingParen),
                        Some(off) => {
                            let scope = trim_spec(meta.skip(pi + 1).take(off));
                            if scope.len() == 0 {
                                Err(ParseError::EmptyScope)
                            } else {
                                Ok(
                                    HeaderParts {
                                        commit_type: trim_spec(meta.take(pi)),
                                        scope: Some(scope),
                                        description,
                                    },
                                )
                            }
                        },
                    }
                },
            }
        },
    }
}

/// The trimmed header section of an input.
pub open spec fn header_section(s: Seq<char>) -> Seq<char> {
    trim_spec(split_sections_spec(s)[0])
}

/// The body of an input: its second section, when that section exists and
/// is non-blank after trimming.
pub open spec fn body_section(s: Seq<char>) -> Option<Seq<char>> {
    let parts = split_sections_spec(s);
    if parts.len() > 1 && trim_spec(parts[1]).len() > 0 {
        Some(trim_spec(parts[1]))
    } else {
        None
    }
}

/// The footer of an input: its third section, when that section exists and
/// is non-blank after trimming.
pub open spec fn footer_section(s: Seq<char>) -> Option<Seq<char>> {
    let parts = split_sections_spec(s);
    if parts.len() > 2 && trim_spec(parts[2]).len() > 0 {
        Some(trim_spec(parts[2]))
    } else {
        None
    }
}

/// What parsing a whole commit message returns.
pub open spec fn parse_spec(s: Seq<char>) -> Result<CommitParts, ParseError> {
    if split_sections_spec(s).len() == 0 {
        Err(ParseError::EmptyInput)
    } else {
        match parse_header_spec(header_section(s)) {
            Err(e) => Err(e),
            Ok(h) => {
                let footer = footer_section(s);
                Ok(
                    CommitParts {
                        commit_type: h.commit_type,
                        scope: h.scope,
                        description: h.description,
                        body: body_section(s),
                        footer,
                        breaking: match footer {
                            Some(f) => f.contains('!'),
                            None => false,
                        },
                    },
                )
            },
        }
    }
}

/// A parsed Conventional Commit message.
#[derive(Debug, PartialEq, Eq)]
pub struct CommitMessage {
    /// The commit type (e.g. `feat`, `fix`).
    pub commit_type: String,
    /// The optional scope (e.g. `ui`, `api`).
    pub scope: Option<String>,
    /// The commit description.
    pub description: String,
    /// The optional body of the commit message.
    pub body: Option<String>,
    /// The optional footer of the commit message.
    pub footer: Option<String>,
    /// Whether the footer flags this commit as a breaking change.
    pub breaking: bool,
}

impl CommitMessage {
    /// Parses a commit message.
    ///
    /// The input is split into sections at blank lines; the first section is
    /// the header `<type>(<optional scope>): <description>`, the second and
    /// third, when present and non-blank, become body and footer, and the
    /// commit is breaking exactly when the trimmed footer contains `!`.
    /// The result is exactly what [`parse_spec`] says for this input.
    pub fn parse(input: &str) -> (r: Result<CommitMessage, ParseError>)
        ensures
            (match (r, parse_spec(input@)) {
                (Ok(cm), Ok(p)) => {
                    &&& cm.commit_type@ == p.commit_type
                    &&& cm.scope.deep_view() == p.scope
                    &&& cm.description@ == p.description
                    &&& cm.body.deep_view() == p.body
                    &&& cm.footer.deep_view() == p.footer
                    &&& cm.breaking == p.breaking
                },
                (Err(e), Err(es)) => e == es,
                _ => false,
            }),
            (match r {
                Ok(cm) => cm.breaking <==> (match footer_section(input@) {
                    Some(f) => f.contains('!'),
                    None => false,
                }),
                Err(_) => true,
            }),
    {
        let parts = split_sections(input);
        if parts.len() == 0 {
            return Err(ParseError::EmptyInput);
        }
        proof {
            assert(parts.deep_view()[0] == parts@[0]@);
        }
        let header = trim(parts[0].as_str());
        match Self::parse_header(header.as_str()) {
            Err(e) => Err(e),
            Ok((commit_type, scope, description)) => {
                let body = if parts.len() > 1 {
                    proof {
                        assert(parts.deep_view()[1] == parts@[1]@);
                    }
                    let b = trim(parts[1].as_str());
                    if b.unicode_len() > 0 {
                        Some(b)
                    } else {
                        None
                    }
                } else {
                    None
                };
                let (footer, breaking) = if parts.len() > 2 {
                    proof {
                        assert(parts.deep_view()[2] == parts@[2]@);
                    }
                    let f = trim(parts[2].as_str());
                    if f.unicode_len() > 0 {
                        let brk = contains_char(f.as_str(), '!');
                        (Some(f), brk)
                    } else {
                        (None, false)
                    }
                } else {
                    (None, false)
                };
                Ok(CommitMessage { commit_type, scope, description, body, footer, breaking })
            },
        }
    }

    /// Parses the (already trimmed) header line into commit type, optional
    /// scope, and description, exactly as [`parse_header_spec`] says.
    fn parse_header(header: &str) -> (r: Result<(String, Option<String>, String), ParseError>)
        ensures
            (match (r, parse_header_spec(header@)) {
                (Ok(p), Ok(hs)) => {
                    &&& p.0@ == hs.commit_type
                    &&& p.1.deep_view() == hs.scope
                    &&& p.2@ == hs.description
                },
                (Err(e), Err(es)) => e == es,
                _ => false,
            }),
    {
        let n = header.unicode_len();
        let ci = match find_char(header, ':') {
            None => {
                return Err(ParseError::MissingColon);
            },
            Some(ci) => ci,
        };
        proof {
            header@.index_of_first_ensures(':');
        }
        let meta = header.substring_char(0, ci);
        let desc_raw = header.substring_char(ci + 1, n);
        let description = trim(desc_raw);
        proof {
            assert(desc_raw@ =~= header@.skip(ci as int + 1));
        }
        match find_char(meta, '(') {
            None => {
                let t = trim(meta);
                Ok((t, None, description))
            },
            Some(pi) => {
                proof {
                    meta@.index_of_first_ensures('(');
                }
                let after = meta.substring_char(pi + 1, ci);
                proof {
                    assert(after@ =~= meta@.skip(pi as int + 1));
                }
                match find_char(after, ')') {
                    None => Err(ParseError::MissingClosingParen),
                    Some(off) => {
                        proof {
                            after@.index_of_first_ensures(')');
                            assert(after@.take(off as int) =~= meta@.skip(pi as int + 1).take(
                                off as int,
                            ));
                        }
                        let raw_scope = after.substring_char(0, off);
                        let scope = trim(raw_scope);
                        if scope.unicode_len() == 0 {
                            Err(ParseError::EmptyScope)
                        } else {
                            let t = trim(meta.substring_char(0, pi));
                            proof {
                                assert(meta@.subrange(0, pi as int) =~= meta@.take(pi as int));
                            }
                            Ok((t, Some(scope), description))
                        }
                    },
                }
            },
        }
    }
}

} // verus!
