//! The overview shown when HostBraid runs without a command.
use crate::search::CommandNode;
use crate::text::{byte_len, push_str, str_eq};
use vstd::prelude::*;

verus! {

/// The welcome payload.
#[derive(Debug)]
pub struct Welcome {
    pub name: &'static str,
    pub version: String,
    pub description: &'static str,
    pub interactive: bool,
    pub next_steps: Vec<&'static str>,
}

pub fn welcome(version: &str, interactive: bool) -> (r: Welcome)
    ensures
        r.name@ == "HostBraid"@,
        r.version@ == version@,
        r.description@ == "Provider-neutral hosting workflows for people and agents"@,
        r.interactive == interactive,
        r.next_steps@.len() == 3,
        r.next_steps@[0]@ == "hostbraid guide getting-started"@,
        r.next_steps@[1]@ == "hostbraid doctor"@,
        r.next_steps@[2]@ == "hostbraid search <term>"@,
{
    Welcome {
        name: "HostBraid",
        version: version.to_owned(),
        description: "Provider-neutral hosting workflows for people and agents",
        interactive,
        next_steps: vec!["hostbraid guide getting-started", "hostbraid doctor", "hostbraid search <term>"],
    }
}

/// A listed command: visible and not the generated `help`.
pub open spec fn listed(c: CommandNode) -> bool {
    c.name@ != "help"@ && !c.hidden
}

/// The full name and summary of a top-level command.
pub open spec fn category_of(c: CommandNode) -> (Seq<char>, Seq<char>) {
    (
        "hostbraid "@ + c.name@,
        match c.about {
            Some(a) => a@,
            None => Seq::empty(),
        },
    )
}

/// The listed top-level commands, in order.
pub open spec fn categories(children: Seq<CommandNode>) -> Seq<(Seq<char>, Seq<char>)>
    decreases children.len(),
{
    if children.len() == 0 {
        Seq::empty()
    } else if listed(children.last()) {
        categories(children.drop_last()).push(category_of(children.last()))
    } else {
        categories(children.drop_last())
    }
}

/// Each listed top-level command of `root` with its summary.
pub fn command_categories(root: &CommandNode) -> (r: Vec<(String, String)>)
    ensures
        r@.map_values(|c: (String, String)| (c.0@, c.1@)) == categories(root.children@),
{
    let ghost children = root.children@;
    let mut out: Vec<(String, String)> = Vec::new();
    let mut i: usize = 0;
    assert(children.take(0) =~= Seq::<CommandNode>::empty());
    assert(out@.map_values(|c: (String, String)| (c.0@, c.1@)) =~= Seq::<(Seq<char>, Seq<char>)>::empty());
    while i < root.children.len()
        invariant
            i <= children.len(),
            children == root.children@,
            out@.map_values(|c: (String, String)| (c.0@, c.1@)) == categories(children.take(i as int)),
        decreases children.len() - i,
    {
        let child = &root.children[i];
        assert(children.take(i + 1).drop_last() =~= children.take(i as int));
        if !str_eq(child.name.as_str(), "help") && !child.hidden {
            let mut name = "hostbraid ".to_owned();
            push_str(&mut name, child.name.as_str());
            let summary = match &child.about {
                Some(a) => a.clone(),
                None => String::new(),
            };
            let ghost before = out@;
            let ghost added = (name@, summary@);
            out.push((name, summary));
            assert(out@.map_values(|c: (String, String)| (c.0@, c.1@)) =~= before.map_values(
                |c: (String, String)| (c.0@, c.1@),
            ).push(added));
        }
        i = i + 1;
    }
    assert(children.take(children.len() as int) =~= children);
    out
}

/// The width of the command column: the longest command name, in bytes.
pub fn command_width(categories: &[(String, String)]) -> (r: usize)
    ensures
        forall|k: int| 0 <= k < categories@.len() ==> crate::text::utf8_len(#[trigger] categories@[k].0@) <= r,
        categories@.len() == 0 ==> r == 0,
        categories@.len() > 0 ==> exists|k: int| 0 <= k < categories@.len() && crate::text::utf8_len(#[trigger] categories@[k].0@) == r,
{
    let mut width: usize = 0;
    let mut i: usize = 0;
    while i < categories.len()
        invariant
            i <= categories@.len(),
            forall|k: int| 0 <= k < i ==> crate::text::utf8_len(#[trigger] categories@[k].0@) <= width,
            i == 0 ==> width == 0,
            i > 0 ==> exists|k: int| 0 <= k < i && crate::text::utf8_len(#[trigger] categories@[k].0@) == width,
        decreases categories@.len() - i,
    {
        let n = byte_len(categories[i].0.as_str());
        if n > width || i == 0 {
            width = n;
        }
        i = i + 1;
    }
    width
}

} // verus!
