//! The file commands. `nudhi_read "path" name` asks the caller to read a
//! whole file and bind its text; `nudhi_write "path" content` asks it to
//! replace a file's content, where the content argument is a quoted token
//! or the name of a variable rendered as text. Only the parsing and the
//! decision live here; the caller performs the input and output.

use vstd::prelude::*;
use crate::action::{Action, ActionModel, DiagKind};
use crate::bytes::{copy_bytes, find_byte, first_byte_idx, has_byte, last_byte_idx, rfind_byte,
    subvec};
use crate::store::Store;
use crate::tokens::{lemma_deep_view_elems, tokenize, tokens_of};
use crate::value::render_value_spec;
use crate::value::ValueModel;

verus! {

/// What the file-read command asks for: the path between the second
/// token's first and last quote, and the third token as the name.
pub open spec fn read_spec(t: Seq<u8>) -> ActionModel {
    let toks = tokens_of(t);
    if toks.len() != 3 {
        ActionModel::Report { kind: DiagKind::ReadSyntax, subject: Seq::empty() }
    } else {
        let tok1 = toks[1];
        if !has_byte(tok1, 34) {
            ActionModel::Report { kind: DiagKind::MissingQuote, subject: Seq::empty() }
        } else {
            let fq = first_byte_idx(tok1, 34);
            let lq = last_byte_idx(tok1, 34);
            if fq == lq {
                ActionModel::Report { kind: DiagKind::UnterminatedQuote, subject: Seq::empty() }
            } else {
                ActionModel::ReadFile { path: tok1.subrange(fq + 1, lq), name: toks[2] }
            }
        }
    }
}

/// Handles a trimmed file-read line.
pub fn nudhi_read(t: &[u8]) -> (r: Action)
    ensures
        r@ == read_spec(t@),
{
    let toks = tokenize(t);
    proof {
        lemma_deep_view_elems(toks);
    }
    if toks.len() != 3 {
        return Action::Report { kind: DiagKind::ReadSyntax, subject: Vec::new() };
    }
    let tok1 = &toks[1];
    match find_byte(tok1.as_slice(), 34) {
        None => Action::Report { kind: DiagKind::MissingQuote, subject: Vec::new() },
        Some(fq) => match rfind_byte(tok1.as_slice(), 34) {
            None => {
                proof {
                    assert(false);
                }
                Action::Done
            },
            Some(lq) => {
                if fq == lq {
                    Action::Report { kind: DiagKind::UnterminatedQuote, subject: Vec::new() }
                } else {
                    proof {
                        crate::bytes::lemma_first_byte_props(tok1@, 34);
                        crate::bytes::lemma_last_byte_props(tok1@, 34);
                        assert(fq < lq);
                    }
                    let path = subvec(tok1.as_slice(), fq + 1, lq);
                    let name = copy_bytes(toks[2].as_slice());
                    Action::ReadFile { path, name }
                }
            },
        },
    }
}

/// What the file-write command asks for. The content is the quoted part
/// of the third token, or a named variable's value rendered as text.
pub open spec fn write_spec(t: Seq<u8>, m: Map<Seq<u8>, ValueModel>) -> ActionModel {
    let toks = tokens_of(t);
    if toks.len() < 3 {
        ActionModel::Report { kind: DiagKind::WriteSyntax, subject: Seq::empty() }
    } else {
        let tok1 = toks[1];
        if !has_byte(tok1, 34) {
            ActionModel::Report { kind: DiagKind::MissingQuote, subject: Seq::empty() }
        } else {
            let fq = first_byte_idx(tok1, 34);
            let lq = last_byte_idx(tok1, 34);
            if fq == lq {
                ActionModel::Report { kind: DiagKind::UnterminatedQuote, subject: Seq::empty() }
            } else {
                let path = tok1.subrange(fq + 1, lq);
                let tok2 = toks[2];
                if tok2.len() > 0 && tok2[0] == 34 {
                    let ce = last_byte_idx(tok2, 34);
                    if ce == 0 {
                        ActionModel::Report {
                            kind: DiagKind::UnterminatedQuote,
                            subject: Seq::empty(),
                        }
                    } else {
                        ActionModel::WriteFile { path, content: tok2.subrange(1, ce) }
                    }
                } else if m.contains_key(tok2) {
                    ActionModel::WriteFile { path, content: render_value_spec(m[tok2]) }
                } else {
                    ActionModel::Report { kind: DiagKind::VarNotFound, subject: tok2 }
                }
            }
        }
    }
}

/// Handles a trimmed file-write line against the current variables.
pub fn nudhi_write(t: &[u8], store: &Store) -> (r: Action)
    ensures
        r@ == write_spec(t@, store@),
{
    let toks = tokenize(t);
    proof {
        lemma_deep_view_elems(toks);
    }
    if toks.len() < 3 {
        return Action::Report { kind: DiagKind::WriteSyntax, subject: Vec::new() };
    }
    let tok1 = &toks[1];
    match find_byte(tok1.as_slice(), 34) {
        None => Action::Report { kind: DiagKind::MissingQuote, subject: Vec::new() },
        Some(fq) => match rfind_byte(tok1.as_slice(), 34) {
            None => {
                proof {
                    assert(false);
                }
                Action::Done
            },
            Some(lq) => {
                if fq == lq {
                    return Action::Report {
                        kind: DiagKind::UnterminatedQuote,
                        subject: Vec::new(),
                    };
                }
                proof {
                    crate::bytes::lemma_first_byte_props(tok1@, 34);
                    crate::bytes::lemma_last_byte_props(tok1@, 34);
                    assert(fq < lq);
                }
                let path = subvec(tok1.as_slice(), fq + 1, lq);
                let tok2 = &toks[2];
                if tok2.len() > 0 && tok2[0] == 34 {
                    match rfind_byte(tok2.as_slice(), 34) {
                        None => {
                            proof {
                                assert(tok2@[0] == 34);
                                assert(false);
                            }
                            Action::Done
                        },
                        Some(ce) => {
                            if ce == 0 {
                                Action::Report {
                                    kind: DiagKind::UnterminatedQuote,
                                    subject: Vec::new(),
                                }
                            } else {
                                let content = subvec(tok2.as_slice(), 1, ce);
                                Action::WriteFile { path, content }
                            }
                        },
                    }
                } else {
                    match store.get(tok2.as_slice()) {
                        Some(v) => {
                            let content = v.render();
                            Action::WriteFile { path, content }
                        },
                        None => {
                            let subject = copy_bytes(tok2.as_slice());
                            Action::Report { kind: DiagKind::VarNotFound, subject }
                        },
                    }
                }
            },
        },
    }
}

} // verus!
