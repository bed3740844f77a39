//! Filtering a WordPress inventory by search text, available updates and vulnerable installs.
//! The filters are ANDed.
use crate::cli::InventoryListArgs;
use crate::error::{plain_error, AppError, ErrorCode};
use crate::machine::MachineInventoryData;
use crate::provider::{WordPressComponent, WordPressComponentInventory};
use crate::text::{contains_seq, str_contains, to_lowercase, trim, trimmed, unicode_lowercase};
use vstd::prelude::*;

verus! {

/// The search term after trimming and Unicode lowercasing; blank search text has none.
pub open spec fn search_term(search: Option<String>) -> Option<Seq<char>> {
    match search {
        Some(s) => if trimmed(s@).len() == 0 {
            None
        } else {
            Some(unicode_lowercase(trimmed(s@)))
        },
        None => None,
    }
}

/// Some installation of the component runs a vulnerable version.
pub open spec fn has_vulnerable_install(c: WordPressComponent) -> bool {
    exists|i: int|
        0 <= i < c.installations@.len() && #[trigger] c.installations@[i].installed_version_vulnerable
}

/// The component passes every requested filter.
pub open spec fn component_kept(
    c: WordPressComponent,
    term: Option<Seq<char>>,
    updates: bool,
    vulnerable: bool,
) -> bool {
    &&& match term {
        Some(t) => contains_seq(unicode_lowercase(c.slug@), t) || contains_seq(
            unicode_lowercase(c.title@),
            t,
        ),
        None => true,
    }
    &&& (!updates || c.update_count > 0)
    &&& (!vulnerable || has_vulnerable_install(c))
}

/// A search finds a component by its slug as well as by its title, whatever their case: when
/// the lowercased slug or title contains the lowercased, trimmed search text, and the update
/// and vulnerability filters let it through, the component is kept.
pub proof fn lemma_search_matches_slug_or_title(
    c: WordPressComponent,
    search: String,
    updates: bool,
    vulnerable: bool,
)
    requires
        trimmed(search@).len() > 0,
        contains_seq(unicode_lowercase(c.slug@), unicode_lowercase(trimmed(search@)))
            || contains_seq(unicode_lowercase(c.title@), unicode_lowercase(trimmed(search@))),
        !updates || c.update_count > 0,
        !vulnerable || has_vulnerable_install(c),
    ensures
        component_kept(c, search_term(Some(search)), updates, vulnerable),
{
}

/// Only components that pass every requested filter are kept: with search text, the lowercased
/// slug or title contains it; with `--updates`, an update exists; with `--vulnerable`, some
/// installation is vulnerable.
pub proof fn lemma_kept_components_pass_every_filter(
    c: WordPressComponent,
    search: Option<String>,
    updates: bool,
    vulnerable: bool,
)
    requires
        component_kept(c, search_term(search), updates, vulnerable),
    ensures
        match search {
            Some(s) => trimmed(s@).len() > 0 ==> (contains_seq(
                unicode_lowercase(c.slug@),
                unicode_lowercase(trimmed(s@)),
            ) || contains_seq(unicode_lowercase(c.title@), unicode_lowercase(trimmed(s@)))),
            None => true,
        },
        updates ==> c.update_count > 0,
        vulnerable ==> exists|i: int|
            0 <= i < c.installations@.len() && #[trigger] c.installations@[i].installed_version_vulnerable,
{
}

/// Without search text, only the update and vulnerability filters decide.
pub proof fn lemma_no_search_keeps_by_flags(c: WordPressComponent, updates: bool, vulnerable: bool)
    ensures
        component_kept(c, search_term(None), updates, vulnerable) <==> ((!updates || c.update_count
            > 0) && (!vulnerable || has_vulnerable_install(c))),
{
}

/// Search text that is present but blank.
pub open spec fn blank_search(search: Option<String>) -> bool {
    search matches Some(s) && trimmed(s@).len() == 0
}

/// Reject blank search text before any profile or network access.
pub fn validate_inventory_arguments(arguments: &InventoryListArgs) -> (r: Result<(), AppError>)
    ensures
        r is Err <==> blank_search(arguments.search),
        r matches Err(e) ==> plain_error(
            e@,
            ErrorCode::InvalidInput,
            "inventory search text cannot be empty"@,
        ),
{
    if let Some(search) = &arguments.search {
        let t = trim(search.as_str());
        if t.as_str().is_empty() {
            return Err(AppError::new(ErrorCode::InvalidInput, "inventory search text cannot be empty"));
        }
    }
    Ok(())
}

fn has_vulnerable(c: &WordPressComponent) -> (r: bool)
    ensures
        r == has_vulnerable_install(*c),
{
    let mut i: usize = 0;
    while i < c.installations.len()
        invariant
            i <= c.installations@.len(),
            forall|k: int| 0 <= k < i ==> !(#[trigger] c.installations@[k].installed_version_vulnerable),
        decreases c.installations@.len() - i,
    {
        if c.installations[i].installed_version_vulnerable {
            return true;
        }
        i = i + 1;
    }
    false
}

fn matches_term(c: &WordPressComponent, term: &Option<String>) -> (r: bool)
    ensures
        r == match term {
            Some(t) => contains_seq(unicode_lowercase(c.slug@), t@) || contains_seq(
                unicode_lowercase(c.title@),
                t@,
            ),
            None => true,
        },
{
    match term {
        Some(t) => {
            let slug = to_lowercase(c.slug.as_str());
            if str_contains(slug.as_str(), t.as_str()) {
                return true;
            }
            let title = to_lowercase(c.title.as_str());
            str_contains(title.as_str(), t.as_str())
        },
        None => true,
    }
}

/// Keep the components that pass every requested filter, in inventory order.
pub fn filter_inventory(inventory: WordPressComponentInventory, arguments: &InventoryListArgs) -> (r:
    Result<MachineInventoryData, AppError>)
    ensures
        r is Err <==> blank_search(arguments.search),
        r matches Err(e) ==> plain_error(
            e@,
            ErrorCode::InvalidInput,
            "inventory search text cannot be empty"@,
        ),
        r matches Ok(data) ==> {
            &&& data.kind == inventory.kind
            &&& data.provider_total == inventory.total
            &&& data.refreshed_at == inventory.refreshed_at
            &&& data.components@ == inventory.components@.filter(
                |c: WordPressComponent|
                    component_kept(
                        c,
                        search_term(arguments.search),
                        arguments.updates,
                        arguments.vulnerable,
                    ),
            )
            &&& data.matched_count == data.components@.len()
        },
{
    let term: Option<String> = match &arguments.search {
        Some(search) => {
            let t = trim(search.as_str());
            if t.as_str().is_empty() {
                return Err(
                    AppError::new(ErrorCode::InvalidInput, "inventory search text cannot be empty"),
                );
            }
            Some(to_lowercase(t.as_str()))
        },
        None => None,
    };
    let ghost term_view = search_term(arguments.search);
    assert(match term {
        Some(t) => term_view == Some(t@),
        None => term_view is None,
    });
    let ghost pred = |c: WordPressComponent|
        component_kept(c, term_view, arguments.updates, arguments.vulnerable);
    let ghost all = inventory.components@;
    let n = inventory.components.len();
    let mut rest = crate::order::reversed(inventory.components);
    let mut components: Vec<WordPressComponent> = Vec::new();
    let mut i: usize = 0;
    proof {
        reveal(Seq::filter);
        assert(all.take(0).filter(pred) =~= Seq::<WordPressComponent>::empty());
    }
    while i < n
        invariant
            n == all.len(),
            i <= n,
            term_view == search_term(arguments.search),
            match term {
                Some(t) => term_view == Some(t@),
                None => term_view is None,
            },
            pred == (|c: WordPressComponent|
                component_kept(c, term_view, arguments.updates, arguments.vulnerable)),
            rest@.len() == n - i,
            forall|k: int| 0 <= k < n - i ==> #[trigger] rest@[k] == all[n - 1 - k],
            components@ == all.take(i as int).filter(pred),
        decreases n - i,
    {
        let c = rest.pop().unwrap();
        assert(c == all[i as int]);
        proof {
            reveal(Seq::filter);
            assert(all.take(i + 1).drop_last() =~= all.take(i as int));
        }
        let keep = matches_term(&c, &term) && (!arguments.updates || c.update_count > 0) && (
        !arguments.vulnerable || has_vulnerable(&c));
        if keep {
            components.push(c);
        }
        i = i + 1;
    }
    assert(all.take(n as int) =~= all);
    let matched_count = components.len();
    Ok(
        MachineInventoryData {
            kind: inventory.kind,
            provider_total: inventory.total,
            matched_count,
            refreshed_at: inventory.refreshed_at,
            components,
        },
    )
}

} // verus!
