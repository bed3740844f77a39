//! The built-in guides: their topics, titles and summaries. The guide texts themselves are
//! supplied by the program that embeds them.
use crate::cli::GuideTopic;
use crate::search::{DocumentView, SearchDocument, SearchKind};
use crate::text::push_str;
use vstd::prelude::*;

verus! {

/// One built-in guide, without its text.
#[derive(Debug, Clone, Copy, PartialEq, Eq)]
pub struct GuideDocument {
    pub topic: &'static str,
    pub title: &'static str,
    pub summary: &'static str,
}

/// The topic of each guide, in listing order.
pub open spec fn guide_topic(topic: GuideTopic) -> Seq<char> {
    match topic {
        GuideTopic::GettingStarted => "getting-started"@,
        GuideTopic::Humans => "humans"@,
        GuideTopic::Agents => "agents"@,
        GuideTopic::Concepts => "concepts"@,
        GuideTopic::Security => "security"@,
    }
}

/// The guide of a topic.
pub fn guide_document(topic: GuideTopic) -> (r: GuideDocument)
    ensures
        r.topic@ == guide_topic(topic),
{
    match topic {
        GuideTopic::GettingStarted => GuideDocument {
            topic: "getting-started",
            title: "Getting started",
            summary: "Understand HostBraid's current surface and the path to your first provider.",
        },
        GuideTopic::Humans => GuideDocument {
            topic: "humans",
            title: "Human-friendly workflows",
            summary: "Learn how HostBraid keeps interactive work clear, calm, and reversible.",
        },
        GuideTopic::Agents => GuideDocument {
            topic: "agents",
            title: "Using HostBraid from an agent",
            summary: "Use deterministic JSON, exact targets, and non-interactive behavior.",
        },
        GuideTopic::Concepts => GuideDocument {
            topic: "concepts",
            title: "Snapshots, exports, and pulls",
            summary: "Keep provider restore points separate from portable local artifacts.",
        },
        GuideTopic::Security => GuideDocument {
            topic: "security",
            title: "Security model",
            summary: "Understand credentials, host keys, local writes, and remote execution.",
        },
    }
}

/// The topics in listing order.
pub open spec fn topic_order() -> Seq<GuideTopic> {
    seq![
        GuideTopic::GettingStarted,
        GuideTopic::Humans,
        GuideTopic::Agents,
        GuideTopic::Concepts,
        GuideTopic::Security,
    ]
}

/// Every guide, in listing order.
pub fn guide_documents() -> (r: Vec<GuideDocument>)
    ensures
        r@.len() == topic_order().len(),
        forall|k: int| 0 <= k < r@.len() ==> (#[trigger] r@[k]).topic@ == guide_topic(topic_order()[k]),
{
    let mut out: Vec<GuideDocument> = Vec::new();
    out.push(guide_document(GuideTopic::GettingStarted));
    out.push(guide_document(GuideTopic::Humans));
    out.push(guide_document(GuideTopic::Agents));
    out.push(guide_document(GuideTopic::Concepts));
    out.push(guide_document(GuideTopic::Security));
    out
}

/// The topic shown when none is asked for.
pub fn default_topic(topic: Option<GuideTopic>) -> (r: GuideTopic)
    ensures
        r == match topic {
            Some(t) => t,
            None => GuideTopic::GettingStarted,
        },
{
    match topic {
        Some(t) => t,
        None => GuideTopic::GettingStarted,
    }
}

/// The search document of a guide and its text.
pub open spec fn guide_search_view(guide: GuideDocument, body: Seq<char>) -> DocumentView {
    DocumentView {
        kind: SearchKind::Guide,
        name: guide.topic@,
        summary: guide.summary@,
        details: body,
        usage: "hostbraid guide "@ + guide.topic@,
    }
}

pub fn guide_search_document(guide: &GuideDocument, body: &str) -> (r: SearchDocument)
    ensures
        r@ == guide_search_view(*guide, body@),
{
    let mut usage = "hostbraid guide ".to_owned();
    push_str(&mut usage, guide.topic);
    SearchDocument {
        kind: SearchKind::Guide,
        name: guide.topic.to_owned(),
        summary: guide.summary.to_owned(),
        details: body.to_owned(),
        usage,
    }
}

} // verus!
