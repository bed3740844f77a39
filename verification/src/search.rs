//! `search`: the commands and guides, how a query scores against each, and the ranked results.
//! The fuzzy name similarity used when no text matches is computed by the caller.
use crate::error::{hinted_error, AppError, ErrorCode};
use crate::guide::{guide_search_document, guide_search_view, GuideDocument};
use crate::machine::MachineWarning;
use crate::order::{char_lt, key_lt, lex_lt, same_order_per_key, sorted_by_key, sort_by_key, text_less, text_lt, SortKey};
use crate::ssh::min_int;
use crate::text::{contains_seq, push_str, str_contains, str_eq, starts_with, to_lowercase, trim, trimmed, unicode_lowercase};
use vstd::prelude::*;

verus! {

/// What a search document describes.
#[derive(Debug, Clone, Copy, PartialEq, Eq, Structural)]
pub enum SearchKind {
    Command,
    Guide,
}

impl SearchKind {
    pub fn label(self) -> (r: &'static str)
        ensures
            r@ == match self {
                SearchKind::Command => "command"@,
                SearchKind::Guide => "guide"@,
            },
    {
        match self {
            SearchKind::Command => "command",
            SearchKind::Guide => "guide",
        }
    }
}

/// One searchable command or guide.
#[derive(Debug)]
pub struct SearchDocument {
    pub kind: SearchKind,
    pub name: String,
    pub summary: String,
    pub details: String,
    pub usage: String,
}

/// The text of a search document.
pub struct DocumentView {
    pub kind: SearchKind,
    pub name: Seq<char>,
    pub summary: Seq<char>,
    pub details: Seq<char>,
    pub usage: Seq<char>,
}

impl View for SearchDocument {
    type V = DocumentView;

    open spec fn view(&self) -> DocumentView {
        DocumentView {
            kind: self.kind,
            name: self.name@,
            summary: self.summary@,
            details: self.details@,
            usage: self.usage@,
        }
    }
}

/// A matching document and its score.
#[derive(Debug)]
pub struct SearchResult {
    pub kind: SearchKind,
    pub name: String,
    pub summary: String,
    pub usage: String,
    pub score: u16,
}

// ---------------------------------------------------------------------------------------------
// Scoring
// ---------------------------------------------------------------------------------------------
/// The score of a document for a query, both compared in lowercase: an exact name, a name
/// prefix, a name part, a summary part, a details part, and otherwise the fuzzy name score.
pub open spec fn match_score(query: Seq<char>, d: SearchDocument, fuzzy: u16) -> u16 {
    let q = unicode_lowercase(query);
    let name = unicode_lowercase(d.name@);
    if name == q {
        1000
    } else if q.len() <= name.len() && name.take(q.len() as int) == q {
        900
    } else if contains_seq(name, q) {
        800
    } else if contains_seq(unicode_lowercase(d.summary@), q) {
        650
    } else if contains_seq(unicode_lowercase(d.details@), q) {
        500
    } else {
        fuzzy
    }
}

/// Search ignores case: documents whose name, summary and details agree in lowercase score the
/// same for every query, and so do queries that agree in lowercase.
pub proof fn lemma_score_ignores_case(
    q1: Seq<char>,
    q2: Seq<char>,
    d1: SearchDocument,
    d2: SearchDocument,
    fuzzy: u16,
)
    requires
        unicode_lowercase(q1) == unicode_lowercase(q2),
        unicode_lowercase(d1.name@) == unicode_lowercase(d2.name@),
        unicode_lowercase(d1.summary@) == unicode_lowercase(d2.summary@),
        unicode_lowercase(d1.details@) == unicode_lowercase(d2.details@),
    ensures
        match_score(q1, d1, fuzzy) == match_score(q2, d2, fuzzy),
{
}

/// A document whose name is the query, in any case, scores the top 1000; any document whose name
/// contains the query outranks every document matched only by summary, details or similarity.
pub proof fn lemma_name_matches_rank_first(query: Seq<char>, d: SearchDocument, fuzzy: u16)
    ensures
        unicode_lowercase(d.name@) == unicode_lowercase(query) ==> match_score(query, d, fuzzy)
            == 1000,
        contains_seq(unicode_lowercase(d.name@), unicode_lowercase(query)) ==> match_score(
            query,
            d,
            fuzzy,
        ) >= 800,
{
}

/// A summary match ranks a document at 650 when its name does not contain the query: the
/// lowercased summary containing the lowercased query is enough, whatever the case of either.
pub proof fn lemma_summary_match_scores(query: Seq<char>, d: SearchDocument, fuzzy: u16)
    requires
        !contains_seq(unicode_lowercase(d.name@), unicode_lowercase(query)),
        contains_seq(unicode_lowercase(d.summary@), unicode_lowercase(query)),
    ensures
        match_score(query, d, fuzzy) == 650,
{
    let q = unicode_lowercase(query);
    let name = unicode_lowercase(d.name@);
    if name == q {
        let at = 0int;
        assert(name.subrange(at, at + q.len()) =~= q);
        assert(contains_seq(name, q));
    }
    if q.len() <= name.len() && name.take(q.len() as int) == q {
        let at = 0int;
        assert(name.subrange(at, at + q.len()) =~= name.take(q.len() as int));
        assert(contains_seq(name, q));
    }
}

/// Score `document` for `query`; `fuzzy` is the score of the lowercase name's similarity to the
/// lowercase query, used only when no text matches.
pub fn score(query: &str, document: &SearchDocument, fuzzy: u16) -> (r: u16)
    ensures
        r == match_score(query@, *document, fuzzy),
{
    let query = to_lowercase(query);
    let name = to_lowercase(document.name.as_str());
    if str_eq(name.as_str(), query.as_str()) {
        return 1000;
    }
    if starts_with(name.as_str(), query.as_str()) {
        return 900;
    }
    if str_contains(name.as_str(), query.as_str()) {
        return 800;
    }
    let summary = to_lowercase(document.summary.as_str());
    if str_contains(summary.as_str(), query.as_str()) {
        return 650;
    }
    let details = to_lowercase(document.details.as_str());
    if str_contains(details.as_str(), query.as_str()) {
        return 500;
    }
    fuzzy
}

// ---------------------------------------------------------------------------------------------
// Ranking
// ---------------------------------------------------------------------------------------------
/// A text whose order follows the score downwards: one mark per point below the maximum.
pub open spec fn score_rank(score: u16) -> Seq<char> {
    Seq::new((65535 - score) as nat, |i: int| 'a')
}

impl SortKey for SearchResult {
    /// Higher scores first, then names in text order.
    open spec fn sort_key(&self) -> Seq<Seq<char>> {
        seq![score_rank(self.score), self.name@]
    }

    fn key_less(&self, other: &Self) -> (r: bool) {
        proof {
            lemma_result_order(*self, *other);
        }
        if self.score != other.score {
            self.score > other.score
        } else {
            text_less(self.name.as_str(), other.name.as_str())
        }
    }
}

proof fn lemma_rank_lt(m: nat, n: nat)
    ensures
        lex_lt(
            Seq::new(m, |i: int| 'a'),
            Seq::new(n, |i: int| 'a'),
            char_lt(),
        ) == (m < n),
    decreases m,
{
    let a = Seq::new(m, |i: int| 'a');
    let b = Seq::new(n, |i: int| 'a');
    if m > 0 && n > 0 {
        assert(a.drop_first() =~= Seq::new((m - 1) as nat, |i: int| 'a'));
        assert(b.drop_first() =~= Seq::new((n - 1) as nat, |i: int| 'a'));
        lemma_rank_lt((m - 1) as nat, (n - 1) as nat);
    }
}

/// Results are ordered by score, higher first, and then by name.
pub proof fn lemma_result_order(a: SearchResult, b: SearchResult)
    ensures
        key_lt(a.sort_key(), b.sort_key()) == (a.score > b.score || (a.score == b.score && text_lt(
            a.name@,
            b.name@,
        ))),
{
    let ka = a.sort_key();
    let kb = b.sort_key();
    reveal_with_fuel(lex_lt, 3);
    lemma_rank_lt((65535 - a.score) as nat, (65535 - b.score) as nat);
    assert(ka.drop_first() =~= seq![a.name@]);
    assert(kb.drop_first() =~= seq![b.name@]);
    assert(ka.drop_first().drop_first() =~= Seq::<Seq<char>>::empty());
    assert(kb.drop_first().drop_first() =~= Seq::<Seq<char>>::empty());
    if a.score != b.score {
        assert(score_rank(a.score).len() != score_rank(b.score).len());
    }
}

/// The results of the documents that score above zero, in document order.
pub open spec fn candidates(
    query: Seq<char>,
    documents: Seq<SearchDocument>,
    fuzzy: Seq<u16>,
) -> Seq<SearchResult>
    decreases documents.len(),
{
    if documents.len() == 0 {
        Seq::empty()
    } else {
        let n = (documents.len() - 1) as int;
        let d = documents[n];
        let s = match_score(query, d, fuzzy[n]);
        let earlier = candidates(query, documents.take(n), fuzzy.take(n));
        if s > 0 {
            earlier.push(
                SearchResult {
                    kind: d.kind,
                    name: d.name,
                    summary: d.summary,
                    usage: d.usage,
                    score: s,
                },
            )
        } else {
            earlier
        }
    }
}

/// The ranked results: the candidates ordered by score and name, candidates with equal keys
/// in their own order, cut to `limit`.
pub open spec fn ranked_results(results: Seq<SearchResult>, candidates: Seq<SearchResult>, limit: nat) -> bool {
    exists|all: Seq<SearchResult>|
        #![trigger all.to_multiset()]
        all.to_multiset() == candidates.to_multiset() && all.len() == candidates.len()
            && sorted_by_key(all) && same_order_per_key(all, candidates) && results == all.take(
            min_int(limit as int, all.len() as int),
        )
}

/// Score every document, keep those above zero, order them best first and keep `limit`.
/// `fuzzy[i]` is the fuzzy score of `documents[i]`.
pub fn rank_documents(
    query: &str,
    documents: Vec<SearchDocument>,
    fuzzy: &[u16],
    limit: u16,
) -> (r: Vec<SearchResult>)
    requires
        fuzzy@.len() == documents@.len(),
    ensures
        ranked_results(r@, candidates(query@, documents@, fuzzy@), limit as nat),
{
    let ghost all_documents = documents@;
    let mut documents = documents;
    let mut results: Vec<SearchResult> = Vec::new();
    // Documents are taken from the back; results are built in document order at the end.
    let mut reversed: Vec<SearchResult> = Vec::new();
    let mut n: usize = documents.len();
    assert(all_documents.take(n as int) =~= all_documents);
    assert(fuzzy@.take(n as int) =~= fuzzy@);
    assert(reversed@.reverse() =~= Seq::<SearchResult>::empty());
    while n > 0
        invariant
            n == documents@.len(),
            n <= all_documents.len(),
            documents@ == all_documents.take(n as int),
            fuzzy@.len() == all_documents.len(),
            candidates(query@, all_documents, fuzzy@) == candidates(
                query@,
                all_documents.take(n as int),
                fuzzy@.take(n as int),
            ) + reversed@.reverse(),
        decreases n,
    {
        let d = documents.pop().unwrap();
        let ghost m = (n - 1) as int;
        assert(all_documents.take(n as int).take(m) =~= all_documents.take(m));
        assert(fuzzy@.take(n as int).take(m) =~= fuzzy@.take(m));
        assert(all_documents.take(n as int)[m] == d);
        let s = score(query, &d, fuzzy[n - 1]);
        if s > 0 {
            let ghost before = reversed@;
            reversed.push(
                SearchResult { kind: d.kind, name: d.name, summary: d.summary, usage: d.usage, score: s },
            );
            assert(reversed@.reverse() =~= seq![reversed@.last()] + before.reverse());
        }
        n = n - 1;
    }
    assert(all_documents.take(0) =~= Seq::<SearchDocument>::empty());
    let ghost wanted = reversed@.reverse();
    assert(candidates(query@, all_documents, fuzzy@) =~= wanted);
    while reversed.len() > 0
        invariant
            results@ + reversed@.reverse() == wanted,
        decreases reversed@.len(),
    {
        let ghost before = reversed@;
        let x = reversed.pop().unwrap();
        assert(before.reverse() =~= seq![x] + reversed@.reverse());
        results.push(x);
    }
    assert(results@ =~= wanted);
    sort_by_key(&mut results);
    let ghost all = results@;
    let keep: usize = if (limit as usize) < results.len() {
        limit as usize
    } else {
        results.len()
    };
    results.truncate(keep);
    assert(results@ =~= all.take(min_int(limit as int, all.len() as int)));
    results
}

// ---------------------------------------------------------------------------------------------
// Queries and warnings
// ---------------------------------------------------------------------------------------------
/// The error for a query that is blank once trimmed.
pub open spec fn empty_query(e: crate::error::AppErrorView) -> bool {
    hinted_error(
        e,
        ErrorCode::InvalidInput,
        "search query cannot be empty"@,
        "Try `hostbraid search ssh` or `hostbraid guide --list`."@,
    )
}

/// The trimmed query, which must not be empty.
pub fn search_query(raw: &str) -> (r: Result<String, AppError>)
    ensures
        trimmed(raw@).len() > 0 ==> (r matches Ok(q) && q@ == trimmed(raw@)),
        trimmed(raw@).len() == 0 ==> (r matches Err(e) && empty_query(e@)),
{
    let query = trim(raw);
    if query.as_str().is_empty() {
        return Err(
            AppError::new(ErrorCode::InvalidInput, "search query cannot be empty").with_hint(
                "Try `hostbraid search ssh` or `hostbraid guide --list`.",
            ),
        );
    }
    Ok(query)
}

/// The warning when nothing matched, and none otherwise.
pub fn search_warnings(query: &str, matched: bool) -> (r: Vec<MachineWarning>)
    ensures
        matched ==> r@.len() == 0,
        !matched ==> r@.len() == 1 && r@[0].code@ == "no_matches"@ && r@[0].message@
            == "No commands or guides matched `"@ + query@ + "`"@,
{
    if matched {
        return Vec::new();
    }
    let mut message = "No commands or guides matched `".to_owned();
    push_str(&mut message, query);
    push_str(&mut message, "`");
    vec![MachineWarning::new("no_matches", message.as_str())]
}

// ---------------------------------------------------------------------------------------------
// Documents
// ---------------------------------------------------------------------------------------------
/// A command of the command tree, as far as search reads it.
#[derive(Debug)]
pub struct CommandNode {
    pub name: String,
    pub about: Option<String>,
    pub long_about: Option<String>,
    /// Hidden from the command overview.
    pub hidden: bool,
    pub children: Vec<CommandNode>,
}

/// The full name of a command under its parent's full name.
pub open spec fn command_path(parent: Seq<char>, name: Seq<char>) -> Seq<char> {
    if parent.len() == 0 {
        name
    } else {
        parent + " "@ + name
    }
}

/// The document of one command: its summary is its about text, its details the long about
/// text or else the summary, and its usage asks for its help.
pub open spec fn command_document(node: CommandNode, path: Seq<char>) -> DocumentView {
    let summary = match node.about {
        Some(a) => a@,
        None => Seq::empty(),
    };
    DocumentView {
        kind: SearchKind::Command,
        name: path,
        summary,
        details: match node.long_about {
            Some(l) => l@,
            None => summary,
        },
        usage: path + " --help"@,
    }
}

/// The documents of a command and, depth first, of every subcommand but the generated `help`.
pub open spec fn tree_documents(node: CommandNode, parent: Seq<char>) -> Seq<DocumentView>
    decreases node,
{
    let path = command_path(parent, node.name@);
    seq![command_document(node, path)] + forest_documents(node.children@, path)
}

pub open spec fn forest_documents(children: Seq<CommandNode>, parent: Seq<char>) -> Seq<
    DocumentView,
>
    decreases children,
{
    if children.len() == 0 {
        Seq::empty()
    } else {
        forest_documents(children.drop_last(), parent) + if children.last().name@ == "help"@ {
            Seq::empty()
        } else {
            tree_documents(children.last(), parent)
        }
    }
}

/// Append the documents of `command` and its subcommands under `parent`.
pub fn collect_commands(command: &CommandNode, parent: &str, documents: &mut Vec<SearchDocument>)
    ensures
        final(documents)@.map_values(|d: SearchDocument| d@) == old(documents)@.map_values(
            |d: SearchDocument| d@,
        ) + tree_documents(*command, parent@),
    decreases command,
{
    let ghost start = documents@.map_values(|d: SearchDocument| d@);
    let path = if parent.is_empty() {
        command.name.clone()
    } else {
        let mut p = parent.to_owned();
        push_str(&mut p, " ");
        push_str(&mut p, command.name.as_str());
        p
    };
    assert(path@ == command_path(parent@, command.name@));
    let summary = match &command.about {
        Some(a) => a.clone(),
        None => String::new(),
    };
    let details = match &command.long_about {
        Some(l) => l.clone(),
        None => summary.clone(),
    };
    let mut usage = path.clone();
    push_str(&mut usage, " --help");
    documents.push(
        SearchDocument { kind: SearchKind::Command, name: path.clone(), summary, details, usage },
    );
    let ghost head = start + seq![command_document(*command, path@)];
    assert(documents@.map_values(|d: SearchDocument| d@) =~= head);
    let ghost children = command.children@;
    let mut i: usize = 0;
    assert(children.take(0) =~= Seq::<CommandNode>::empty());
    while i < command.children.len()
        invariant
            i <= children.len(),
            children == command.children@,
            documents@.map_values(|d: SearchDocument| d@) == head + forest_documents(
                children.take(i as int),
                path@,
            ),
        decreases children.len() - i,
    {
        let child = &command.children[i];
        assert(children.take(i + 1).drop_last() =~= children.take(i as int));
        assert(children.take(i + 1).last() == children[i as int]);
        if !str_eq(child.name.as_str(), "help") {
            proof {
                assert(decreases_to!(*command => command.children));
                assert(decreases_to!(command.children => command.children@));
                assert(decreases_to!(command.children@ => command.children@[i as int]));
            }
            let ghost before = documents@.map_values(|d: SearchDocument| d@);
            collect_commands(child, path.as_str(), documents);
            assert(documents@.map_values(|d: SearchDocument| d@) =~= head + forest_documents(
                children.take(i + 1),
                path@,
            ));
        } else {
            assert(forest_documents(children.take(i + 1), path@) =~= forest_documents(
                children.take(i as int),
                path@,
            ));
        }
        i = i + 1;
    }
    assert(children.take(children.len() as int) =~= children);
    assert(documents@.map_values(|d: SearchDocument| d@) =~= start + tree_documents(
        *command,
        parent@,
    ));
}

/// Every searchable document: the command tree under its root, then each guide with its text.
pub fn search_documents(root: &CommandNode, guides: &[(GuideDocument, String)]) -> (r: Vec<
    SearchDocument,
>)
    ensures
        r@.map_values(|d: SearchDocument| d@) == tree_documents(*root, Seq::empty()) + guides@.map_values(
            |g: (GuideDocument, String)| guide_search_view(g.0, g.1@),
        ),
{
    let mut documents: Vec<SearchDocument> = Vec::new();
    assert(documents@.map_values(|d: SearchDocument| d@) =~= Seq::<DocumentView>::empty());
    collect_commands(root, "", &mut documents);
    let ghost commands = tree_documents(*root, Seq::empty());
    assert(""@ =~= Seq::<char>::empty()) by {
        reveal_strlit("");
    }
    let mut i: usize = 0;
    while i < guides.len()
        invariant
            i <= guides@.len(),
            documents@.map_values(|d: SearchDocument| d@) == commands + guides@.take(
                i as int,
            ).map_values(|g: (GuideDocument, String)| guide_search_view(g.0, g.1@)),
        decreases guides@.len() - i,
    {
        let document = guide_search_document(&guides[i].0, guides[i].1.as_str());
        let ghost before = documents@;
        let ghost added = document@;
        documents.push(document);
        assert(documents@.map_values(|d: SearchDocument| d@) =~= before.map_values(
            |d: SearchDocument| d@,
        ).push(added));
        assert(guides@.take(i + 1).map_values(
            |g: (GuideDocument, String)| guide_search_view(g.0, g.1@),
        ) =~= guides@.take(i as int).map_values(
            |g: (GuideDocument, String)| guide_search_view(g.0, g.1@),
        ).push(guide_search_view(guides@[i as int].0, guides@[i as int].1@)));
        assert(documents@.map_values(|d: SearchDocument| d@) =~= commands + guides@.take(
            i + 1,
        ).map_values(|g: (GuideDocument, String)| guide_search_view(g.0, g.1@)));
        i = i + 1;
    }
    assert(guides@.take(guides@.len() as int) =~= guides@);
    documents
}

} // verus!
