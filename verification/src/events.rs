//! Structural events of a market document: what the streaming XML reader
//! yields, reduced to the three shapes the price parser dispatches on.

use vstd::prelude::*;

verus! {

/// One structural event of the market document, in document order.
#[derive(Debug, Clone)]
pub enum MarketEvent {
    /// An element opened, carrying its local name.
    Start(String),
    /// An element closed, carrying its local name.
    End(String),
    /// Character data inside the currently open element.
    Text(String),
}

/// The structural events of a document, in document order, truncated at the
/// first transport-level fault.
pub uninterp spec fn events_of(doc: Seq<char>) -> Seq<MarketEvent>;

/// Relies on `xml::reader::EventReader`: the streaming pull parser's
/// start-element, end-element and character-data events in document order,
/// stopping at the first transport-level error; a function of the document
/// text alone.
#[verifier::external_body]
pub(crate) fn read_events(doc: &str) -> (r: Vec<MarketEvent>)
    ensures
        r@ == events_of(doc@),
{
    let mut out = Vec::new();
    for ev in xml::reader::EventReader::new(doc.as_bytes()) {
        match ev {
            Ok(xml::reader::XmlEvent::StartElement { name, .. }) => out.push(MarketEvent::Start(name.local_name)),
            Ok(xml::reader::XmlEvent::EndElement { name }) => out.push(MarketEvent::End(name.local_name)),
            Ok(xml::reader::XmlEvent::Characters(data)) => out.push(MarketEvent::Text(data)),
            Ok(_) => {}
            Err(_) => break,
        }
    }
    out
}

} // verus!
