//! Plain text from office documents.

use vstd::prelude::*;
use vstd::string::*;

verus! {

/// A piece of a run: text or a line break.
#[derive(Debug)]
pub enum RunContent {
    Text(String),
    Break,
}

/// A stretch of text with one formatting.
#[derive(Debug)]
pub struct Run {
    pub content: Vec<RunContent>,
}

/// A piece of a paragraph.
#[derive(Debug)]
pub enum ParagraphContent {
    Run(Run),
    /// A hyperlink, with the run it shows.
    Link(Run),
    /// Anything else, such as a bookmark.
    Other,
}

/// A paragraph of the document.
#[derive(Debug)]
pub struct Paragraph {
    pub content: Vec<ParagraphContent>,
}

/// A piece of the document's body.
#[derive(Debug)]
pub enum BodyContent {
    Paragraph(Paragraph),
    /// Anything else, such as a table.
    Other,
}

/// A parsed office document.
#[derive(Debug)]
pub struct Document {
    pub body: Vec<BodyContent>,
}

/// The text of one piece of a run. Text that stands in a plain run ends its
/// line; text of a hyperlink does not. A break is a line break.
pub open spec fn piece_text(piece: RunContent, linked: bool) -> Seq<char> {
    match piece {
        RunContent::Text(text) => if linked {
            text@
        } else {
            text@ + seq!['\n']
        },
        RunContent::Break => seq!['\n'],
    }
}

/// The text of the pieces of a run, in order.
pub open spec fn run_text(pieces: Seq<RunContent>, linked: bool) -> Seq<char>
    decreases pieces.len(),
{
    if pieces.len() == 0 {
        Seq::empty()
    } else {
        run_text(pieces.drop_last(), linked) + piece_text(pieces.last(), linked)
    }
}

/// The text of one piece of a paragraph: what is neither a run nor a
/// hyperlink has none.
pub open spec fn part_text(part: ParagraphContent) -> Seq<char> {
    match part {
        ParagraphContent::Run(run) => run_text(run.content@, false),
        ParagraphContent::Link(run) => run_text(run.content@, true),
        ParagraphContent::Other => Seq::empty(),
    }
}

/// The text of the pieces of a paragraph, in order.
pub open spec fn paragraph_text(parts: Seq<ParagraphContent>) -> Seq<char>
    decreases parts.len(),
{
    if parts.len() == 0 {
        Seq::empty()
    } else {
        paragraph_text(parts.drop_last()) + part_text(parts.last())
    }
}

/// The text of one piece of the body: what is no paragraph has none.
pub open spec fn block_text(block: BodyContent) -> Seq<char> {
    match block {
        BodyContent::Paragraph(paragraph) => paragraph_text(paragraph.content@),
        BodyContent::Other => Seq::empty(),
    }
}

/// The text of the pieces of the body, in order.
pub open spec fn body_text(blocks: Seq<BodyContent>) -> Seq<char>
    decreases blocks.len(),
{
    if blocks.len() == 0 {
        Seq::empty()
    } else {
        body_text(blocks.drop_last()) + block_text(blocks.last())
    }
}

/// Appends the text of a run to `out`.
fn append_run(out: &mut String, run: &Run, linked: bool)
    ensures
        final(out)@ == old(out)@ + run_text(run.content@, linked),
{
    let mut i: usize = 0;
    while i < run.content.len()
        invariant
            i <= run.content.len(),
            out@ == old(out)@ + run_text(run.content@.take(i as int), linked),
        decreases run.content.len() - i,
    {
        proof {
            let upto = run.content@.take(i + 1);
            assert(upto.drop_last() =~= run.content@.take(i as int));
        }
        match &run.content[i] {
            RunContent::Text(text) => {
                out.append(text.as_str());
                if !linked {
                    out.append("\n");
                    proof {
                        reveal_strlit("\n");
                    }
                }
            },
            RunContent::Break => {
                out.append("\n");
                proof {
                    reveal_strlit("\n");
                }
            },
        }
        assert(out@ =~= old(out)@ + (run_text(run.content@.take(i as int), linked) + piece_text(
            run.content@[i as int],
            linked,
        )));
        i += 1;
    }
    assert(run.content@.take(run.content.len() as int) =~= run.content@);
}

/// Appends the text of a paragraph to `out`.
fn append_paragraph(out: &mut String, paragraph: &Paragraph)
    ensures
        final(out)@ == old(out)@ + paragraph_text(paragraph.content@),
{
    let mut i: usize = 0;
    while i < paragraph.content.len()
        invariant
            i <= paragraph.content.len(),
            out@ == old(out)@ + paragraph_text(paragraph.content@.take(i as int)),
        decreases paragraph.content.len() - i,
    {
        proof {
            let upto = paragraph.content@.take(i + 1);
            assert(upto.drop_last() =~= paragraph.content@.take(i as int));
        }
        match &paragraph.content[i] {
            ParagraphContent::Run(run) => {
                append_run(out, run, false);
            },
            ParagraphContent::Link(run) => {
                append_run(out, run, true);
            },
            ParagraphContent::Other => {},
        }
        assert(out@ =~= old(out)@ + (paragraph_text(paragraph.content@.take(i as int))
            + part_text(paragraph.content@[i as int])));
        i += 1;
    }
    assert(paragraph.content@.take(paragraph.content.len() as int) =~= paragraph.content@);
}

/// The plain text of an office document: the text of its paragraphs' runs
/// and hyperlinks, in order. `None` where the document could not be read.
pub fn read_all_docx_text(document: Option<&Document>) -> (text: Option<String>)
    ensures
        match document {
            Some(parsed) => text matches Some(plain) && plain@ == body_text(parsed.body@),
            None => text is None,
        },
{
    let parsed = match document {
        Some(parsed) => parsed,
        None => {
            return None;
        },
    };
    let mut out = String::new();
    let mut i: usize = 0;
    while i < parsed.body.len()
        invariant
            i <= parsed.body.len(),
            out@ == body_text(parsed.body@.take(i as int)),
        decreases parsed.body.len() - i,
    {
        proof {
            let upto = parsed.body@.take(i + 1);
            assert(upto.drop_last() =~= parsed.body@.take(i as int));
        }
        match &parsed.body[i] {
            BodyContent::Paragraph(paragraph) => {
                append_paragraph(&mut out, paragraph);
            },
            BodyContent::Other => {},
        }
        i += 1;
    }
    assert(parsed.body@.take(parsed.body.len() as int) =~= parsed.body@);
    Some(out)
}

} // verus!
