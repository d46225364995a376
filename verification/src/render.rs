//! The document that lists the entries.
//!
//! Every entry becomes one line, an inline link of the shape that the
//! addresses were read from: the label, or the reason of a failure as it
//! stands, between square brackets, and the address between round ones.

use vstd::prelude::*;
use vstd::string::*;
use crate::outcome::{EntryModel, ResultEntry};

verus! {

/// The line of one entry.
pub open spec fn rendered_line(entry: EntryModel) -> Seq<char> {
    "["@ + entry.outcome.text() + "]("@ + entry.address + ")\n"@
}

/// The lines of `entries`, one after the other, in the order of `entries`.
pub open spec fn rendered(entries: Seq<EntryModel>) -> Seq<char>
    decreases entries.len(),
{
    if entries.len() == 0 {
        seq![]
    } else {
        rendered(entries.drop_last()) + rendered_line(entries.last())
    }
}

/// Appends the line of `entry` to `document`.
pub fn push_line(document: &mut String, entry: &ResultEntry)
    ensures
        final(document)@ == old(document)@ + rendered_line(entry@),
{
    document.append("[");
    document.append(entry.outcome.text());
    document.append("](");
    document.append(entry.address.as_str());
    document.append(")\n");
}

/// Renders `entries` as a document: one line for each, in their order.
pub fn render(entries: &Vec<ResultEntry>) -> (document: String)
    ensures
        document@ == rendered(entries.deep_view()),
{
    let mut document = String::new();
    let mut i: usize = 0;
    while i < entries.len()
        invariant
            i <= entries.len(),
            document@ == rendered(entries.deep_view().take(i as int)),
        decreases entries.len() - i,
    {
        proof {
            let next = entries.deep_view().take(i + 1);
            assert(next.drop_last() =~= entries.deep_view().take(i as int));
        }
        push_line(&mut document, &entries[i]);
        i = i + 1;
    }
    proof {
        assert(entries.deep_view().take(entries.len() as int) =~= entries.deep_view());
    }
    document
}

} // verus!
