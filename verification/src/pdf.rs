//! Statements in PDF attachments: the page texts of a PDF through
//! `pdfium-render`, joined into one text, and the choice of the PDF whose
//! text a statement is read from. The pdfium library itself is bound by the
//! application, from a shared library found on disk at run time.

use vstd::prelude::*;
use pdfium_render::prelude::Pdfium;
use crate::banks::Bank;
use crate::parser::{
    captures_in, captures_usable, parse_statement_spec, try_parse_statement, Statement, StatementFault,
};
use crate::text::{join_strings, join_with};

verus! {

/// `pdfium_render::prelude::Pdfium`, a bound pdfium library.
#[verifier::external_type_specification]
#[verifier::external_body]
pub struct ExPdfium(Pdfium);

/// The text of each page of the PDF `bytes`, in page order
/// (`Pdfium::load_pdf_from_byte_slice`, then `text().all()` of every page);
/// `None` when the document or a page's text cannot be loaded. What the
/// texts are depends on the pdfium library bound at run time, so nothing is
/// stated of them.
#[verifier::external_body]
fn pdf_page_texts(pdfium: &Pdfium, bytes: &[u8]) -> (r: Option<Vec<String>>) {
    let doc = pdfium.load_pdf_from_byte_slice(bytes, None).ok()?;
    let pages = doc.pages().iter().map(|page| page.text().map(|t| t.all())).collect::<Result<Vec<String>, _>>();
    pages.ok()
}

/// The text of a PDF: its page texts joined by `"\n"`; `None` when pdfium
/// cannot load it.
pub fn extract_text(pdfium: &Pdfium, bytes: &[u8]) -> (r: Option<String>)
    ensures
        r matches Some(t) ==> exists|pages: Seq<Seq<char>>| t@ == join_with(pages, "\n"@),
{
    match pdf_page_texts(pdfium, bytes) {
        Some(pages) => Some(join_strings(&pages, "\n")),
        None => None,
    }
}

/// The views of optional texts.
pub open spec fn opt_texts_view(v: Seq<Option<String>>) -> Seq<Option<Seq<char>>> {
    v.map_values(|o: Option<String>| match o { Some(s) => Some(s@), None => None })
}

/// The index of the first text that is there, if any.
pub open spec fn first_some(v: Seq<Option<Seq<char>>>) -> Option<int>
    decreases v.len(),
{
    if v.len() == 0 {
        None
    } else if v[0] is Some {
        Some(0)
    } else {
        match first_some(v.drop_first()) {
            Some(i) => Some(i + 1),
            None => None,
        }
    }
}

proof fn lemma_first_some(v: Seq<Option<Seq<char>>>)
    ensures
        first_some(v) matches Some(i) ==> 0 <= i < v.len() && v[i] is Some
            && forall|j: int| 0 <= j < i ==> (#[trigger] v[j]) is None,
        first_some(v) is None ==> forall|j: int| 0 <= j < v.len() ==> (#[trigger] v[j]) is None,
    decreases v.len(),
{
    if v.len() > 0 {
        lemma_first_some(v.drop_first());
        assert forall|j: int| 1 <= j < v.len() implies v[j] == v.drop_first()[j - 1] by {}
    }
}

/// The extraction results of the PDFs of a message, in order, up to and
/// including the first PDF whose text could be extracted (later PDFs are not
/// read).
pub fn first_pdf_text(pdfium: &Pdfium, pdfs: &Vec<Vec<u8>>) -> (r: Vec<Option<String>>)
    ensures
        r@.len() <= pdfs@.len(),
        forall|j: int| 0 <= j < r@.len() - 1 ==> (#[trigger] r@[j]) is None,
        r@.len() < pdfs@.len() ==> r@.len() > 0 && r@.last() is Some,
        forall|j: int| 0 <= j < r@.len() ==> (#[trigger] r@[j] matches Some(t)
            ==> exists|pages: Seq<Seq<char>>| t@ == join_with(pages, "\n"@)),
{
    let mut r: Vec<Option<String>> = Vec::new();
    let mut i: usize = 0;
    while i < pdfs.len()
        invariant
            i <= pdfs.len(),
            r@.len() == i,
            forall|j: int| 0 <= j < r@.len() ==> (#[trigger] r@[j]) is None,
        decreases pdfs.len() - i,
    {
        let t = extract_text(pdfium, pdfs[i].as_slice());
        let found = t.is_some();
        r.push(t);
        i = i + 1;
        if found {
            return r;
        }
    }
    r
}

/// The statement read from PDF texts: the first text that is there decides,
/// read with `try_parse_statement`, together with its index; `Ok(None)` when
/// no text is there.
pub fn first_pdf_statement(bank: &Bank, texts: &Vec<Option<String>>) -> (r: Result<Option<(Statement, usize)>, StatementFault>)
    ensures
        match first_some(opt_texts_view(texts@)) {
            None => r == Ok::<Option<(Statement, usize)>, StatementFault>(None),
            Some(i) => {
                let t = opt_texts_view(texts@)[i].unwrap();
                &&& (r is Ok <==> captures_usable(bank@.amount_style, captures_in(bank@, t)))
                &&& (r matches Ok(o) ==> match (o, parse_statement_spec(bank@, t)) {
                    (Some((s, k)), Some(v)) => s@ == v && k == i,
                    (None, None) => true,
                    _ => false,
                })
            },
        },
{
    let ghost v = opt_texts_view(texts@);
    proof {
        lemma_first_some(v);
    }
    let mut i: usize = 0;
    while i < texts.len()
        invariant
            i <= texts.len(),
            v == opt_texts_view(texts@),
            forall|j: int| 0 <= j < i ==> (#[trigger] v[j]) is None,
            first_some(v) matches Some(k) ==> 0 <= k < v.len() && v[k] is Some
                && forall|j: int| 0 <= j < k ==> (#[trigger] v[j]) is None,
            first_some(v) is None ==> forall|j: int| 0 <= j < v.len() ==> (#[trigger] v[j]) is None,
        decreases texts.len() - i,
    {
        assert(v[i as int] == match texts@[i as int] { Some(s) => Some(s@), None => None });
        match &texts[i] {
            Some(t) => {
                assert(first_some(v) == Some(i as int)) by {
                    if let Some(k) = first_some(v) {
                        if k < i {
                            assert(v[k] is None);
                        } else if k > i {
                            assert(v[i as int] is None);
                        }
                    } else {
                        assert(v[i as int] is None);
                    }
                }
                return match try_parse_statement(bank, t.as_str()) {
                    Ok(Some(s)) => Ok(Some((s, i))),
                    Ok(None) => Ok(None),
                    Err(f) => Err(f),
                };
            },
            None => {},
        }
        i = i + 1;
    }
    assert(first_some(v) is None) by {
        if let Some(k) = first_some(v) {
            assert(v[k] is None);
        }
    }
    Ok(None)
}

} // verus!
