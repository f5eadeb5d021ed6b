//! Walking the hyperlinks of a hypertext node, one at a time or from a
//! list fetched in one go on the first request.

use vstd::prelude::*;

verus! {

/// A walk over the hyperlinks of one node. With `Ht` each hyperlink is
/// fetched by its index; with `Ht2` the whole list is fetched once and
/// handed out slot by slot. A hyperlink stands here for the handle under
/// which the caller keeps it.
pub enum HyperlinkGetter {
    Ht { index: u32 },
    Ht2 { links: Option<Vec<Option<u64>>>, index: u32 },
}

/// What the caller does to get the next hyperlink.
#[derive(PartialEq, Eq, Structural, Debug)]
pub enum HyperlinkStep {
    /// Fetch the hyperlink with this index; a failed fetch ends the walk.
    FetchAt(i32),
    /// Fetch the whole list, hand it over with `supply_links`, and ask
    /// again.
    FetchAll,
    /// The next hyperlink, or `None` when the walk is over (or the slot
    /// was empty).
    Yield(Option<u64>),
}

/// The value of a walk: its kind, its list as plain values, and its index.
pub enum GetterView {
    Ht { index: u32 },
    Ht2 { links: Option<Seq<Option<u64>>>, index: u32 },
}

impl View for HyperlinkGetter {
    type V = GetterView;

    open spec fn view(&self) -> GetterView {
        match self {
            HyperlinkGetter::Ht { index } => GetterView::Ht { index: *index },
            HyperlinkGetter::Ht2 { links, index } => GetterView::Ht2 {
                links: match links {
                    Some(v) => Some(v@),
                    None => None,
                },
                index: *index,
            },
        }
    }
}

/// The step that the next request gives.
pub open spec fn next_step(g: GetterView) -> HyperlinkStep {
    match g {
        GetterView::Ht { index } => HyperlinkStep::FetchAt(index as i32),
        GetterView::Ht2 { links, index } => match links {
            None => HyperlinkStep::FetchAll,
            Some(v) => if index < v.len() {
                HyperlinkStep::Yield(v[index as int])
            } else {
                HyperlinkStep::Yield(None)
            },
        },
    }
}

/// The walk after the next request: the index moves on (wrapping) except
/// while the list is still to be fetched, and a handed-out slot is
/// emptied so that each hyperlink is handed out once.
pub open spec fn after_next(g: GetterView) -> GetterView {
    match g {
        GetterView::Ht { index } => GetterView::Ht { index: index.wrapping_add(1) },
        GetterView::Ht2 { links, index } => match links {
            None => g,
            Some(v) => GetterView::Ht2 {
                links: Some(
                    if index < v.len() {
                        v.update(index as int, None)
                    } else {
                        v
                    },
                ),
                index: index.wrapping_add(1),
            },
        },
    }
}

/// The walk after the list has been supplied: a `Ht2` walk that still
/// waits for its list takes it; any other walk is unchanged.
pub open spec fn after_supply(g: GetterView, links: Seq<Option<u64>>) -> GetterView {
    match g {
        GetterView::Ht2 { links: None, index } => GetterView::Ht2 { links: Some(links), index },
        _ => g,
    }
}

/// The walk for a node, preferring the list interface: `None` where the
/// node has neither.
pub open spec fn getter_for(supports_ht2: bool, supports_ht: bool) -> Option<GetterView> {
    if supports_ht2 {
        Some(GetterView::Ht2 { links: None, index: 0 })
    } else if supports_ht {
        Some(GetterView::Ht { index: 0 })
    } else {
        None
    }
}

/// The walk for a node that has the list interface (`supports_ht2`) or
/// the one-by-one interface (`supports_ht`).
pub fn make_hyperlink_getter(supports_ht2: bool, supports_ht: bool) -> (g: Option<HyperlinkGetter>)
    ensures
        match g {
            Some(g) => getter_for(supports_ht2, supports_ht) == Some(g@),
            None => getter_for(supports_ht2, supports_ht) is None,
        },
{
    if supports_ht2 {
        Some(HyperlinkGetter::Ht2 { links: None, index: 0 })
    } else if supports_ht {
        Some(HyperlinkGetter::Ht { index: 0 })
    } else {
        None
    }
}

impl HyperlinkGetter {
    /// The next step of the walk.
    pub fn next(&mut self) -> (step: HyperlinkStep)
        ensures
            step == next_step(old(self)@),
            final(self)@ == after_next(old(self)@),
    {
        match self {
            HyperlinkGetter::Ht { index } => {
                let i = *index as i32;
                *index = index.wrapping_add(1);
                HyperlinkStep::FetchAt(i)
            },
            HyperlinkGetter::Ht2 { links, index } => {
                match links {
                    None => HyperlinkStep::FetchAll,
                    Some(v) => {
                        let i = *index;
                        *index = i.wrapping_add(1);
                        if (i as usize) < v.len() {
                            let link = v[i as usize];
                            v.set(i as usize, None);
                            HyperlinkStep::Yield(link)
                        } else {
                            HyperlinkStep::Yield(None)
                        }
                    },
                }
            },
        }
    }

    /// Hands a `Ht2` walk the list it asked for.
    pub fn supply_links(&mut self, fetched: Vec<Option<u64>>)
        ensures
            final(self)@ == after_supply(old(self)@, fetched@),
    {
        match self {
            HyperlinkGetter::Ht2 { links, index: _ } => {
                if links.is_none() {
                    *links = Some(fetched);
                }
            },
            HyperlinkGetter::Ht { index: _ } => {},
        }
    }
}

/// The walk after `k` requests.
pub open spec fn after_requests(g: GetterView, k: nat) -> GetterView
    decreases k,
{
    if k == 0 {
        g
    } else {
        after_next(after_requests(g, (k - 1) as nat))
    }
}

/// A one-by-one walk asks for the hyperlinks by index in turn: the
/// request after `k` others fetches index `k`.
pub proof fn lemma_ht_fetches_in_order(k: nat)
    requires
        k <= u32::MAX,
    ensures
        after_requests(GetterView::Ht { index: 0 }, k) == (GetterView::Ht { index: k as u32 }),
        next_step(after_requests(GetterView::Ht { index: 0 }, k)) == HyperlinkStep::FetchAt(
            k as u32 as i32,
        ),
    decreases k,
{
    if k > 0 {
        lemma_ht_fetches_in_order((k - 1) as nat);
    }
}

/// A walk over a supplied list hands out its slots in order, each once:
/// after `k` requests the first `k` slots are emptied, the index is `k`,
/// and the next request hands out slot `k` (`None` past the end).
pub proof fn lemma_ht2_hands_out_in_order(links: Seq<Option<u64>>, k: nat)
    requires
        k <= u32::MAX,
    ensures
        after_requests(GetterView::Ht2 { links: Some(links), index: 0 }, k) == (GetterView::Ht2 {
            links: Some(
                Seq::new(
                    links.len(),
                    |i: int|
                        if i < k {
                            None
                        } else {
                            links[i]
                        },
                ),
            ),
            index: k as u32,
        }),
        next_step(after_requests(GetterView::Ht2 { links: Some(links), index: 0 }, k))
            == HyperlinkStep::Yield(
            if k < links.len() {
                links[k as int]
            } else {
                None
            },
        ),
    decreases k,
{
    let emptied = Seq::new(
        links.len(),
        |i: int|
            if i < k {
                None
            } else {
                links[i]
            },
    );
    if k == 0 {
        assert(emptied =~= links);
    } else {
        lemma_ht2_hands_out_in_order(links, (k - 1) as nat);
        let prev = Seq::new(
            links.len(),
            |i: int|
                if i < k - 1 {
                    None
                } else {
                    links[i]
                },
        );
        if k - 1 < links.len() {
            assert(prev.update(k - 1, None) =~= emptied);
        } else {
            assert(prev =~= emptied);
        }
    }
}

} // verus!
