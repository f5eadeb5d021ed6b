//! ARIA live regions in the MSHTML virtual buffer: the live state that
//! each node takes from its own `aria-*` attributes or inherits, the
//! changed text of a re-rendered node, and what is announced.
//!
//! Nodes are named by the keys under which the buffer keeps them.

use crate::mshtml::{attr_html, html_key_of, weq, Attribs};
use crate::numbers::is_wspace;
use crate::search::{contains_seq, find_subslice, lemma_first_occurrence};
use crate::white_space::is_white_space_code;
use crate::wide::{append_units, utf16, utf16_encode};
use vstd::prelude::*;

verus! {

/// The live-region state of a node, as it passes down the render.
pub struct LiveState {
    /// The nearest node at or above this one, within the rendered part,
    /// that declared an active live region.
    pub live_root: Option<u64>,
    /// `polite` or `assertive` inside an active live region, else empty.
    pub politeness: Vec<u16>,
    pub text_relevant: bool,
    pub additions_relevant: bool,
    pub busy: bool,
    /// The nearest node at or above this one declared `aria-atomic`.
    pub atomic_node: Option<u64>,
    /// The politeness at which the atomic node is announced.
    pub atomic_politeness: Vec<u16>,
}

/// A live state as plain values.
pub struct LiveView {
    pub live_root: Option<u64>,
    pub politeness: Seq<u16>,
    pub text_relevant: bool,
    pub additions_relevant: bool,
    pub busy: bool,
    pub atomic_node: Option<u64>,
    pub atomic_politeness: Seq<u16>,
}

impl View for LiveState {
    type V = LiveView;

    open spec fn view(&self) -> LiveView {
        LiveView {
            live_root: self.live_root,
            politeness: self.politeness@,
            text_relevant: self.text_relevant,
            additions_relevant: self.additions_relevant,
            busy: self.busy,
            atomic_node: self.atomic_node,
            atomic_politeness: self.atomic_politeness@,
        }
    }
}

impl Default for LiveState {
    /// Outside any live region, nothing relevant, not busy, not atomic.
    fn default() -> (s: LiveState)
        ensures
            s@ == (LiveView {
                live_root: None,
                politeness: Seq::empty(),
                text_relevant: false,
                additions_relevant: false,
                busy: false,
                atomic_node: None,
                atomic_politeness: Seq::empty(),
            }),
    {
        LiveState {
            live_root: None,
            politeness: Vec::new(),
            text_relevant: false,
            additions_relevant: false,
            busy: false,
            atomic_node: None,
            atomic_politeness: Vec::new(),
        }
    }
}

fn copy_units(units: &[u16]) -> (copy: Vec<u16>)
    ensures
        copy@ == units@,
{
    let mut copy: Vec<u16> = Vec::new();
    append_units(&mut copy, units);
    copy
}

/// The value of the HTML attribute `name` when it is present and not
/// empty.
pub open spec fn declared(attribs: Map<Seq<u16>, Vec<u16>>, name: Seq<char>) -> Option<Seq<u16>> {
    if attribs.contains_key(html_key_of(name)) && attribs[html_key_of(name)]@.len() > 0 {
        Some(attribs[html_key_of(name)]@)
    } else {
        None
    }
}

/// An `aria-live` value that switches announcements on.
pub open spec fn live_enabled(v: Seq<u16>) -> bool {
    v == utf16_encode("polite"@) || v == utf16_encode("assertive"@)
}

/// What an `aria-relevant` value makes relevant: text and additions.
pub open spec fn relevance_of_value(v: Seq<u16>) -> (bool, bool) {
    if v == utf16_encode("all"@) {
        (true, true)
    } else {
        (contains_seq(v, utf16_encode("text"@)), contains_seq(v, utf16_encode("additions"@)))
    }
}

/// The live state of `node` from the `aria-live`, `aria-relevant`,
/// `aria-busy` and `aria-atomic` values it declares (`None` where it
/// declares none), each undeclared one inherited from `parent`.
pub open spec fn live_state_of(
    node: u64,
    live: Option<Seq<u16>>,
    relevant: Option<Seq<u16>>,
    busy: Option<Seq<u16>>,
    atomic: Option<Seq<u16>>,
    parent: LiveView,
) -> LiveView {
    let (live_root, politeness) = match live {
        Some(v) => if live_enabled(v) {
            (Some(node), v)
        } else {
            (None, Seq::empty())
        },
        None => (parent.live_root, parent.politeness),
    };
    let (text_relevant, additions_relevant) = match relevant {
        Some(v) => relevance_of_value(v),
        None => (parent.text_relevant, parent.additions_relevant),
    };
    let is_busy = match busy {
        Some(v) => v == utf16_encode("true"@),
        None => parent.busy,
    };
    let (atomic_node, atomic_politeness) = match atomic {
        Some(v) => if v == utf16_encode("true"@) {
            (Some(node), politeness)
        } else {
            (None, Seq::empty())
        },
        None => (parent.atomic_node, parent.atomic_politeness),
    };
    LiveView {
        live_root,
        politeness,
        text_relevant,
        additions_relevant,
        busy: is_busy,
        atomic_node,
        atomic_politeness,
    }
}

fn declared_value<'a>(attribs: &'a Attribs, name: &str) -> (value: Option<&'a Vec<u16>>)
    ensures
        match value {
            Some(v) => declared(attribs@, name@) == Some(v@),
            None => declared(attribs@, name@) is None,
        },
{
    match attr_html(attribs, name) {
        Some(v) => if v.len() > 0 {
            Some(v)
        } else {
            None
        },
        None => None,
    }
}

/// `true` when `needle` occurs in `hay`.
fn units_contain(hay: &[u16], needle: &str) -> (b: bool)
    ensures
        b == contains_seq(hay@, utf16_encode(needle@)),
{
    let n = utf16(needle);
    proof {
        lemma_first_occurrence(hay@, n@);
    }
    find_subslice(hay, n.as_slice()).is_some()
}

fn relevance(v: &[u16]) -> (r: (bool, bool))
    ensures
        r == relevance_of_value(v@),
{
    if weq(v, "all") {
        (true, true)
    } else {
        (units_contain(v, "text"), units_contain(v, "additions"))
    }
}

/// The live state of `node` from its own attributes and its parent's
/// state.
pub fn pre_process_live_region(node: u64, attribs: &Attribs, parent: &LiveState) -> (s: LiveState)
    ensures
        s@ == live_state_of(
            node,
            declared(attribs@, "aria-live"@),
            declared(attribs@, "aria-relevant"@),
            declared(attribs@, "aria-busy"@),
            declared(attribs@, "aria-atomic"@),
            parent@,
        ),
{
    let (live_root, politeness) = match declared_value(attribs, "aria-live") {
        Some(v) => {
            if weq(v.as_slice(), "polite") || weq(v.as_slice(), "assertive") {
                (Some(node), copy_units(v.as_slice()))
            } else {
                (None, Vec::new())
            }
        },
        None => (parent.live_root, copy_units(parent.politeness.as_slice())),
    };
    let (text_relevant, additions_relevant) = match declared_value(attribs, "aria-relevant") {
        Some(v) => relevance(v.as_slice()),
        None => (parent.text_relevant, parent.additions_relevant),
    };
    let busy = match declared_value(attribs, "aria-busy") {
        Some(v) => weq(v.as_slice(), "true"),
        None => parent.busy,
    };
    let (atomic_node, atomic_politeness) = match declared_value(attribs, "aria-atomic") {
        Some(v) => {
            if weq(v.as_slice(), "true") {
                (Some(node), copy_units(politeness.as_slice()))
            } else {
                (None, Vec::new())
            }
        },
        None => (parent.atomic_node, copy_units(parent.atomic_politeness.as_slice())),
    };
    LiveState {
        live_root,
        politeness,
        text_relevant,
        additions_relevant,
        busy,
        atomic_node,
        atomic_politeness,
    }
}

/// The `aria-*` values that one ancestor element holds (`None` where it
/// has the attribute not at all).
pub struct AncestorAria {
    pub live: Option<Vec<u16>>,
    pub relevant: Option<Vec<u16>>,
    pub busy: Option<Vec<u16>>,
    pub atomic: Option<Vec<u16>>,
}

/// The non-empty value that the nearest declaring ancestor holds.
pub open spec fn nearest_declared(values: Seq<Option<Seq<u16>>>) -> Option<Seq<u16>>
    decreases values.len(),
{
    if values.len() == 0 {
        None
    } else {
        match values[0] {
            Some(v) => if v.len() > 0 {
                Some(v)
            } else {
                nearest_declared(values.skip(1))
            },
            None => nearest_declared(values.skip(1)),
        }
    }
}

/// One attribute of each ancestor, nearest first.
pub open spec fn column(ancestors: Seq<AncestorAria>, which: int) -> Seq<Option<Seq<u16>>> {
    ancestors.map_values(
        |a: AncestorAria|
            {
                let v = if which == 0 {
                    a.live
                } else if which == 1 {
                    a.relevant
                } else if which == 2 {
                    a.busy
                } else {
                    a.atomic
                };
                match v {
                    Some(t) => Some(t@),
                    None => None,
                }
            },
    )
}

/// The live state that the root of a partial re-render inherits from its
/// ancestor elements (nearest first): each attribute is settled by the
/// nearest ancestor that declares it, with no live root inside the
/// rendered part, text and additions relevant by default, and an atomic
/// ancestor stood in for by `root_node`, announced at the settled
/// politeness.
pub open spec fn inherited_live_state(ancestors: Seq<AncestorAria>, root_node: u64) -> LiveView {
    let politeness = match nearest_declared(column(ancestors, 0)) {
        Some(v) => if live_enabled(v) {
            v
        } else {
            Seq::empty()
        },
        None => Seq::empty(),
    };
    let (text_relevant, additions_relevant) = match nearest_declared(column(ancestors, 1)) {
        Some(v) => relevance_of_value(v),
        None => (true, true),
    };
    let busy = match nearest_declared(column(ancestors, 2)) {
        Some(v) => v == utf16_encode("true"@),
        None => false,
    };
    let atomic_node = match nearest_declared(column(ancestors, 3)) {
        Some(v) => if v == utf16_encode("true"@) {
            Some(root_node)
        } else {
            None
        },
        None => None,
    };
    LiveView {
        live_root: None,
        politeness,
        text_relevant,
        additions_relevant,
        busy,
        atomic_node,
        atomic_politeness: if atomic_node is Some {
            politeness
        } else {
            Seq::empty()
        },
    }
}

proof fn lemma_nearest_declared_step(values: Seq<Option<Seq<u16>>>, k: int)
    requires
        0 <= k < values.len(),
        nearest_declared(values.take(k)) is None,
    ensures
        nearest_declared(values.take(k + 1)) == (match values[k] {
            Some(v) => if v.len() > 0 {
                Some(v)
            } else {
                None
            },
            None => None,
        }),
    decreases k,
{
    if k > 0 {
        let head = values[0];
        assert(values.take(k)[0] == head);
        assert(values.take(k + 1)[0] == head);
        assert(values.take(k).skip(1) =~= values.skip(1).take(k - 1));
        assert(values.take(k + 1).skip(1) =~= values.skip(1).take(k));
        assert(!(head matches Some(v) && v.len() > 0));
        assert(nearest_declared(values.take(k)) == nearest_declared(values.skip(1).take(k - 1)));
        assert(values.skip(1)[k - 1] == values[k]);
        lemma_nearest_declared_step(values.skip(1), k - 1);
        assert(nearest_declared(values.take(k + 1)) == nearest_declared(values.skip(1).take(k)));
    } else {
        assert(values.take(1)[0] == values[0]);
        assert(values.take(1).skip(1) =~= Seq::<Option<Seq<u16>>>::empty());
        assert(nearest_declared(Seq::<Option<Seq<u16>>>::empty()) is None);
    }
}

proof fn lemma_nearest_declared_keeps(values: Seq<Option<Seq<u16>>>, k: int)
    requires
        0 <= k < values.len(),
        nearest_declared(values.take(k)) is Some,
    ensures
        nearest_declared(values.take(k + 1)) == nearest_declared(values.take(k)),
    decreases k,
{
    let head = values[0];
    assert(values.take(k)[0] == head);
    assert(values.take(k + 1)[0] == head);
    if head matches Some(v) && v.len() > 0 {
    } else {
        assert(values.take(k).skip(1) =~= values.skip(1).take(k - 1));
        assert(values.take(k + 1).skip(1) =~= values.skip(1).take(k));
        lemma_nearest_declared_keeps(values.skip(1), k - 1);
    }
}

/// Settles one attribute against the next ancestor's value: the first
/// non-empty value wins.
fn settle(found: &mut Option<Vec<u16>>, value: &Option<Vec<u16>>, Ghost(values): Ghost<Seq<Option<Seq<u16>>>>, Ghost(k): Ghost<int>)
    requires
        0 <= k < values.len(),
        values[k] == (match value {
            Some(t) => Some(t@),
            None => None,
        }),
        (match *old(found) {
            Some(f) => Some(f@),
            None => None,
        }) == nearest_declared(values.take(k)),
    ensures
        (match *final(found) {
            Some(f) => Some(f@),
            None => None,
        }) == nearest_declared(values.take(k + 1)),
{
    proof {
        if (*old(found)) is Some {
            lemma_nearest_declared_keeps(values, k);
        } else {
            lemma_nearest_declared_step(values, k);
        }
    }
    if found.is_none() {
        match value {
            Some(v) => if v.len() > 0 {
                *found = Some(copy_units(v.as_slice()));
            },
            None => {},
        }
    }
}

/// The live state that the root of a partial re-render inherits from its
/// ancestor elements, nearest first.
pub fn walk_up_parent_live_state(ancestors: &[AncestorAria], root_node: u64) -> (s: LiveState)
    ensures
        s@ == inherited_live_state(ancestors@, root_node),
{
    let ghost lives = column(ancestors@, 0);
    let ghost rels = column(ancestors@, 1);
    let ghost busys = column(ancestors@, 2);
    let ghost atomics = column(ancestors@, 3);
    let mut live: Option<Vec<u16>> = None;
    let mut relevant: Option<Vec<u16>> = None;
    let mut busy: Option<Vec<u16>> = None;
    let mut atomic: Option<Vec<u16>> = None;
    let mut k: usize = 0;
    proof {
        assert(lives.take(0) =~= Seq::<Option<Seq<u16>>>::empty());
        assert(rels.take(0) =~= Seq::<Option<Seq<u16>>>::empty());
        assert(busys.take(0) =~= Seq::<Option<Seq<u16>>>::empty());
        assert(atomics.take(0) =~= Seq::<Option<Seq<u16>>>::empty());
    }
    while k < ancestors.len()
        invariant
            k <= ancestors@.len(),
            lives == column(ancestors@, 0),
            rels == column(ancestors@, 1),
            busys == column(ancestors@, 2),
            atomics == column(ancestors@, 3),
            (match live {
                Some(f) => Some(f@),
                None => None,
            }) == nearest_declared(lives.take(k as int)),
            (match relevant {
                Some(f) => Some(f@),
                None => None,
            }) == nearest_declared(rels.take(k as int)),
            (match busy {
                Some(f) => Some(f@),
                None => None,
            }) == nearest_declared(busys.take(k as int)),
            (match atomic {
                Some(f) => Some(f@),
                None => None,
            }) == nearest_declared(atomics.take(k as int)),
        decreases ancestors@.len() - k,
    {
        let a = &ancestors[k];
        settle(&mut live, &a.live, Ghost(lives), Ghost(k as int));
        settle(&mut relevant, &a.relevant, Ghost(rels), Ghost(k as int));
        settle(&mut busy, &a.busy, Ghost(busys), Ghost(k as int));
        settle(&mut atomic, &a.atomic, Ghost(atomics), Ghost(k as int));
        k += 1;
    }
    proof {
        assert(lives.take(k as int) =~= lives);
        assert(rels.take(k as int) =~= rels);
        assert(busys.take(k as int) =~= busys);
        assert(atomics.take(k as int) =~= atomics);
    }
    let politeness = match &live {
        Some(v) => if weq(v.as_slice(), "polite") || weq(v.as_slice(), "assertive") {
            copy_units(v.as_slice())
        } else {
            Vec::new()
        },
        None => Vec::new(),
    };
    let (text_relevant, additions_relevant) = match &relevant {
        Some(v) => relevance(v.as_slice()),
        None => (true, true),
    };
    let is_busy = match &busy {
        Some(v) => weq(v.as_slice(), "true"),
        None => false,
    };
    let atomic_node = match &atomic {
        Some(v) => if weq(v.as_slice(), "true") {
            Some(root_node)
        } else {
            None
        },
        None => None,
    };
    let atomic_politeness = if atomic_node.is_some() {
        copy_units(politeness.as_slice())
    } else {
        Vec::new()
    };
    LiveState {
        live_root: None,
        politeness,
        text_relevant,
        additions_relevant,
        busy: is_busy,
        atomic_node,
        atomic_politeness,
    }
}

/// `p` is the length of the longest common prefix of `old` and `new`, and
/// `s` that of the longest common suffix of what follows it in each.
pub open spec fn diff_bounds(old: Seq<u16>, new: Seq<u16>, p: int, s: int) -> bool {
    let m = if old.len() < new.len() {
        old.len() as int
    } else {
        new.len() as int
    };
    &&& 0 <= p <= m
    &&& old.take(p) == new.take(p)
    &&& (p == m || old[p] != new[p])
    &&& 0 <= s <= m - p
    &&& old.skip(old.len() - s) == new.skip(new.len() - s)
    &&& (s == m - p || old[old.len() - 1 - s] != new[new.len() - 1 - s])
}

/// The changed run of `new` against `old`: what lies between their
/// longest common prefix and the longest common suffix after it.
pub open spec fn is_changed_run(old: Seq<u16>, new: Seq<u16>, run: Seq<u16>) -> bool {
    exists|p: int, s: int| diff_bounds(old, new, p, s) && run == new.subrange(p, new.len() - s)
}

/// The changed run of `new` against `old`.
pub fn changed_text(old: &[u16], new: &[u16]) -> (run: Vec<u16>)
    ensures
        is_changed_run(old@, new@, run@),
        run@ == changed_run(old@, new@),
{
    let ol = old.len();
    let nl = new.len();
    let mut pre: usize = 0;
    while pre < ol && pre < nl && old[pre] == new[pre]
        invariant
            pre <= ol && pre <= nl,
            ol == old@.len() && nl == new@.len(),
            old@.take(pre as int) == new@.take(pre as int),
        decreases ol - pre,
    {
        assert(old@.take(pre + 1) =~= old@.take(pre as int).push(old@[pre as int]));
        assert(new@.take(pre + 1) =~= new@.take(pre as int).push(new@[pre as int]));
        pre += 1;
    }
    let mut suf: usize = 0;
    assert(old@.skip(ol as int) =~= new@.skip(nl as int));
    while suf < ol - pre && suf < nl - pre && old[ol - 1 - suf] == new[nl - 1 - suf]
        invariant
            pre <= ol && pre <= nl,
            ol == old@.len() && nl == new@.len(),
            suf <= ol - pre && suf <= nl - pre,
            old@.skip(ol - suf) == new@.skip(nl - suf),
        decreases ol - pre - suf,
    {
        assert(old@.skip(ol - suf - 1) =~= seq![old@[ol - 1 - suf]] + old@.skip(ol - suf));
        assert(new@.skip(nl - suf - 1) =~= seq![new@[nl - 1 - suf]] + new@.skip(nl - suf));
        suf += 1;
    }
    let mut run: Vec<u16> = Vec::new();
    let mut j: usize = pre;
    while j < nl - suf
        invariant
            pre <= j <= nl - suf,
            nl == new@.len(),
            run@ == new@.subrange(pre as int, j as int),
        decreases nl - suf - j,
    {
        run.push(new[j]);
        assert(new@.subrange(pre as int, j + 1) =~= new@.subrange(pre as int, j as int).push(
            new@[j as int],
        ));
        j += 1;
    }
    assert(diff_bounds(old@, new@, pre as int, suf as int));
    proof {
        let other = changed_run(old@, new@);
        assert(is_changed_run(old@, new@, run@));
        let (p2, s2) = choose|p: int, s: int|
            diff_bounds(old@, new@, p, s) && other == new@.subrange(p, new@.len() - s);
        lemma_diff_bounds_unique(old@, new@, pre as int, suf as int, p2, s2);
    }
    run
}

/// The changed run of `new` against `old` (there is exactly one).
pub open spec fn changed_run(old: Seq<u16>, new: Seq<u16>) -> Seq<u16> {
    choose|run: Seq<u16>| is_changed_run(old, new, run)
}

/// The changed run is determined: only one pair of bounds fits.
pub proof fn lemma_diff_bounds_unique(old: Seq<u16>, new: Seq<u16>, p1: int, s1: int, p2: int, s2: int)
    requires
        diff_bounds(old, new, p1, s1),
        diff_bounds(old, new, p2, s2),
    ensures
        p1 == p2,
        s1 == s2,
{
    if p1 < p2 {
        assert(old.take(p2)[p1] == new.take(p2)[p1]);
    } else if p2 < p1 {
        assert(old.take(p1)[p2] == new.take(p1)[p2]);
    }
    if s1 < s2 {
        assert(old.skip(old.len() - s2)[s2 - 1 - s1] == new.skip(new.len() - s2)[s2 - 1 - s1]);
    } else if s2 < s1 {
        assert(old.skip(old.len() - s1)[s1 - 1 - s2] == new.skip(new.len() - s1)[s1 - 1 - s2]);
    }
}

/// `old` with the part between its first `p` and its last `s` units
/// replaced by `run`.
pub open spec fn splice(old: Seq<u16>, run: Seq<u16>, p: int, s: int) -> Seq<u16> {
    old.take(p) + run + old.skip(old.len() - s)
}

/// Putting the changed run in place of the middle of `old` (between the
/// same common prefix and suffix) gives `new`; when the texts are equal
/// the run is empty.
pub proof fn lemma_changed_run_rebuilds_new(old: Seq<u16>, new: Seq<u16>, run: Seq<u16>)
    requires
        is_changed_run(old, new, run),
    ensures
        exists|p: int, s: int|
            0 <= p && 0 <= s && p + s <= old.len() && new == #[trigger] splice(old, run, p, s),
        old == new ==> run.len() == 0,
{
    let (p, s) = choose|p: int, s: int|
        diff_bounds(old, new, p, s) && run == new.subrange(p, new.len() - s);
    assert(new =~= new.take(p) + new.subrange(p, new.len() - s) + new.skip(new.len() - s));
    assert(new == splice(old, run, p, s));
    if old == new {
        assert(p == old.len());
    }
}

/// `true` when `text` holds something other than white space.
pub open spec fn has_visible_text(text: Seq<u16>) -> bool {
    exists|k: int| 0 <= k < text.len() && !is_white_space_code(text[k] as int)
}

/// `true` when `text` is worth announcing: it is not empty and not all
/// white space.
pub fn is_reportable_text(text: &[u16]) -> (b: bool)
    ensures
        b == has_visible_text(text@),
{
    let mut k: usize = 0;
    while k < text.len()
        invariant
            k <= text@.len(),
            forall|j: int| 0 <= j < k ==> is_white_space_code(#[trigger] text@[j] as int),
        decreases text@.len() - k,
    {
        if !is_wspace(text[k]) {
            return true;
        }
        k += 1;
    }
    false
}

/// What a re-rendered node in a live region announces.
pub enum LiveReport {
    /// Nothing.
    Nothing,
    /// The whole of this atomic node, at this politeness, once the render
    /// is over.
    Atomic(u64, Vec<u16>),
    /// This text at this politeness.
    Text(Vec<u16>, Vec<u16>),
}

/// An announcement as plain values.
pub enum ReportView {
    Nothing,
    Atomic(u64, Seq<u16>),
    Text(Seq<u16>, Seq<u16>),
}

/// The view of an announcement.
pub open spec fn report_view(r: LiveReport) -> ReportView {
    match r {
        LiveReport::Nothing => ReportView::Nothing,
        LiveReport::Atomic(n, p) => ReportView::Atomic(n, p@),
        LiveReport::Text(t, p) => ReportView::Text(t@, p@),
    }
}

/// What a re-rendered node announces: nothing outside an active live
/// region or while it is busy. A new node (no old text) whose additions
/// are relevant and that is not itself the live root is reported whole;
/// otherwise, where text is relevant, its changed run against its old text
/// is. When there is something to report, an atomic node above takes it
/// all; otherwise the text is announced when it is not all white space.
pub open spec fn live_report_of(node: u64, old_text: Option<Seq<u16>>, new_text: Seq<u16>, state: LiveView) -> ReportView {
    if state.politeness.len() == 0 || state.busy {
        ReportView::Nothing
    } else {
        let report_node = old_text is None && state.additions_relevant && state.live_root != Some(
            node,
        );
        let changed = match old_text {
            Some(o) => if !report_node && state.text_relevant {
                changed_run(o, new_text)
            } else {
                Seq::empty()
            },
            None => Seq::empty(),
        };
        if !report_node && changed.len() == 0 {
            ReportView::Nothing
        } else if state.atomic_node is Some {
            ReportView::Atomic(state.atomic_node.unwrap(), state.atomic_politeness)
        } else {
            let text = if report_node {
                new_text
            } else {
                changed
            };
            if has_visible_text(text) {
                ReportView::Text(text, state.politeness)
            } else {
                ReportView::Nothing
            }
        }
    }
}

/// What a live region announces of a change, by the region's settings:
/// nothing outside a region, while it is busy, for a new node whose
/// additions are not relevant or that is the region's root itself, or for
/// an existing node whose text is not relevant; a new node whose additions
/// are relevant, in a region without an atomic node, is announced whole at
/// the region's politeness when it has visible text; and with an atomic
/// node above, whatever is announced is that node at its politeness.
pub proof fn lemma_live_report_by_relevance(
    node: u64,
    old_text: Option<Seq<u16>>,
    new_text: Seq<u16>,
    state: LiveView,
)
    ensures
        (state.politeness.len() == 0 || state.busy) ==> live_report_of(node, old_text, new_text, state)
            == ReportView::Nothing,
        (old_text is None && !state.additions_relevant) ==> live_report_of(node, old_text, new_text, state)
            == ReportView::Nothing,
        (old_text is None && state.live_root == Some(node)) ==> live_report_of(
            node,
            old_text,
            new_text,
            state,
        ) == ReportView::Nothing,
        (old_text is Some && !state.text_relevant) ==> live_report_of(node, old_text, new_text, state)
            == ReportView::Nothing,
        (old_text is None && state.additions_relevant && state.live_root != Some(node)
            && state.politeness.len() > 0 && !state.busy && state.atomic_node is None
            && has_visible_text(new_text)) ==> live_report_of(node, old_text, new_text, state)
            == ReportView::Text(new_text, state.politeness),
        (state.atomic_node is Some && live_report_of(node, old_text, new_text, state)
            != ReportView::Nothing) ==> live_report_of(node, old_text, new_text, state)
            == ReportView::Atomic(state.atomic_node->0, state.atomic_politeness),
{
}

/// What a re-rendered node announces, from its old text (`None` for a
/// new node), its text now and its live state.
pub fn live_region_report(node: u64, old_text: Option<&[u16]>, new_text: &[u16], state: &LiveState) -> (report: LiveReport)
    ensures
        report_view(report) == live_report_of(
            node,
            match old_text {
                Some(o) => Some(o@),
                None => None,
            },
            new_text@,
            state@,
        ),
{
    if state.politeness.len() == 0 || state.busy {
        return LiveReport::Nothing;
    }
    let report_node = old_text.is_none() && state.additions_relevant && match state.live_root {
        Some(r) => r != node,
        None => true,
    };
    let changed: Vec<u16> = match old_text {
        Some(o) => if !report_node && state.text_relevant {
            changed_text(o, new_text)
        } else {
            Vec::new()
        },
        None => Vec::new(),
    };
    if !report_node && changed.len() == 0 {
        return LiveReport::Nothing;
    }
    match state.atomic_node {
        Some(a) => LiveReport::Atomic(a, copy_units(state.atomic_politeness.as_slice())),
        None => {
            let text = if report_node {
                copy_units(new_text)
            } else {
                changed
            };
            if is_reportable_text(text.as_slice()) {
                LiveReport::Text(text, copy_units(state.politeness.as_slice()))
            } else {
                LiveReport::Nothing
            }
        },
    }
}

/// No node occurs twice among the recorded atomic nodes.
pub open spec fn atomic_nodes_distinct(list: Seq<(u64, Vec<u16>)>) -> bool {
    forall|i: int, j: int| 0 <= i < j < list.len() ==> (#[trigger] list[i]).0 != (#[trigger] list[j]).0
}

/// Records an atomic node to announce once the render is over, with its
/// politeness, unless it is recorded already; so each atomic node is
/// announced once however many of its descendants changed.
pub fn record_atomic(list: &mut Vec<(u64, Vec<u16>)>, node: u64, politeness: Vec<u16>)
    ensures
        (exists|i: int| 0 <= i < old(list)@.len() && (#[trigger] old(list)@[i]).0 == node)
            ==> final(list)@ == old(list)@,
        !(exists|i: int| 0 <= i < old(list)@.len() && (#[trigger] old(list)@[i]).0 == node)
            ==> final(list)@ == old(list)@.push((node, politeness)),
        atomic_nodes_distinct(old(list)@) ==> atomic_nodes_distinct(final(list)@),
{
    let mut k: usize = 0;
    while k < list.len()
        invariant
            k <= list@.len(),
            forall|i: int| 0 <= i < k ==> (#[trigger] list@[i]).0 != node,
        decreases list@.len() - k,
    {
        if list[k].0 == node {
            return;
        }
        k += 1;
    }
    list.push((node, politeness));
}

} // verus!
