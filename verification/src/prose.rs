//! The prose selector: picks the summary, the details, or both out of an
//! optional prose block.

use vstd::prelude::*;
use crate::model::ProseBlock;

verus! {

/// What to render from a prose block.
pub enum DSOpts {
    /// Just the summary.
    Summary,
    /// Just the details (if present).
    Details,
    /// Both the summary and the details, separated by a blank line.
    Combined,
}

/// Summary and details joined with a blank line when both are present,
/// the summary alone otherwise.
pub open spec fn spec_combined(d: ProseBlock) -> Seq<char> {
    match d.details {
        Some(det) => d.summary@ + "\n\n"@ + det@,
        None => d.summary@,
    }
}

/// The prose selected from an optional block for the given mode. Nothing
/// comes of a missing block; the Details mode also yields nothing when the
/// block has no details.
pub open spec fn spec_doc_string(opts: DSOpts, s: Option<ProseBlock>) -> Option<Seq<char>> {
    match s {
        None => None,
        Some(d) => match opts {
            DSOpts::Summary => Some(d.summary@),
            DSOpts::Details => match d.details {
                Some(det) => Some(det@),
                None => None,
            },
            DSOpts::Combined => Some(spec_combined(d)),
        },
    }
}

/// Selects prose from an optional block for the given mode.
pub fn render_doc_string(opts: DSOpts, string: &Option<ProseBlock>) -> (r: Option<String>)
    ensures
        r.deep_view() == spec_doc_string(opts, *string),
{
    match string {
        None => None,
        Some(d) => match opts {
            DSOpts::Summary => Some(d.summary.clone()),
            DSOpts::Details => match &d.details {
                Some(det) => Some(det.clone()),
                None => None,
            },
            DSOpts::Combined => match &d.details {
                Some(det) => {
                    let mut out = d.summary.clone();
                    out.append("\n\n");
                    out.append(det.as_str());
                    Some(out)
                },
                None => Some(d.summary.clone()),
            },
        },
    }
}

/// Combined-mode law: with only a summary the output is the summary
/// verbatim; with both parts it is the summary, a blank line, and the
/// details.
pub proof fn lemma_combined_prose(d: ProseBlock)
    ensures
        d.details is None ==> spec_doc_string(DSOpts::Combined, Some(d)) == Some(d.summary@),
        d.details is Some ==> spec_doc_string(DSOpts::Combined, Some(d)) == Some(
            d.summary@ + "\n\n"@ + d.details->0@,
        ),
{
}

/// An optional section: its lead-in text and body when present, nothing
/// otherwise.
pub open spec fn spec_opt_sect(pre: Seq<char>, o: Option<Seq<char>>) -> Seq<char> {
    match o {
        Some(s) => pre + s,
        None => Seq::<char>::empty(),
    }
}

} // verus!
