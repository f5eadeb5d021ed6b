//! IA2 attribute strings (`name:value;name:value;...`) and the map they
//! parse into.

use crate::search::{contains_seq, first_occurrence, lemma_first_occurrence, occurs_at, starts_with_seq};
use crate::strings::{chars_of, push_char, str_eq, str_starts_with};
use vstd::prelude::*;

verus! {

/// A map from attribute names to values; each name occurs once.
pub struct AttribMap {
    entries: Vec<(String, String)>,
}

/// The map that a list of (name, value) pairs describes, later pairs
/// replacing earlier ones.
pub open spec fn pairs_map(entries: Seq<(String, String)>) -> Map<Seq<char>, Seq<char>>
    decreases entries.len(),
{
    if entries.len() == 0 {
        Map::empty()
    } else {
        pairs_map(entries.drop_last()).insert(entries.last().0@, entries.last().1@)
    }
}

/// No name occurs twice.
pub open spec fn names_distinct(entries: Seq<(String, String)>) -> bool {
    forall|i: int, j: int|
        0 <= i < j < entries.len() ==> (#[trigger] entries[i]).0@ != (#[trigger] entries[j]).0@
}

proof fn lemma_pairs_map_contents(entries: Seq<(String, String)>)
    requires
        names_distinct(entries),
    ensures
        pairs_map(entries).dom().finite(),
        pairs_map(entries).dom().len() == entries.len(),
        forall|k: Seq<char>|
            pairs_map(entries).contains_key(k) <==> exists|i: int|
                0 <= i < entries.len() && (#[trigger] entries[i]).0@ == k,
        forall|i: int|
            0 <= i < entries.len() ==> #[trigger] pairs_map(entries)[entries[i].0@] == entries[i].1@,
    decreases entries.len(),
{
    if entries.len() > 0 {
        let init = entries.drop_last();
        let last = entries.last();
        assert(names_distinct(init)) by {
            assert forall|i: int, j: int| 0 <= i < j < init.len() implies (#[trigger] init[i]).0@
                != (#[trigger] init[j]).0@ by {
                assert(init[i] == entries[i] && init[j] == entries[j]);
            }
        }
        lemma_pairs_map_contents(init);
        assert(!pairs_map(init).contains_key(last.0@)) by {
            if pairs_map(init).contains_key(last.0@) {
                let i = choose|i: int| 0 <= i < init.len() && (#[trigger] init[i]).0@ == last.0@;
                assert(entries[i] == init[i]);
                assert(entries[entries.len() - 1] == last);
            }
        }
        assert forall|k: Seq<char>|
            pairs_map(entries).contains_key(k) <==> exists|i: int|
                0 <= i < entries.len() && (#[trigger] entries[i]).0@ == k by {
            if pairs_map(entries).contains_key(k) {
                if k == last.0@ {
                    assert(entries[entries.len() - 1].0@ == k);
                } else {
                    let i = choose|i: int| 0 <= i < init.len() && (#[trigger] init[i]).0@ == k;
                    assert(entries[i] == init[i]);
                }
            }
            if exists|i: int| 0 <= i < entries.len() && (#[trigger] entries[i]).0@ == k {
                let i = choose|i: int| 0 <= i < entries.len() && (#[trigger] entries[i]).0@ == k;
                if i < init.len() {
                    assert(init[i] == entries[i]);
                }
            }
        }
        assert forall|i: int| 0 <= i < entries.len() implies #[trigger] pairs_map(
            entries,
        )[entries[i].0@] == entries[i].1@ by {
            if i < init.len() {
                assert(init[i] == entries[i]);
                assert(entries[i].0@ != last.0@) by {
                    assert(entries[entries.len() - 1] == last);
                }
            }
        }
    }
}

proof fn lemma_pairs_map_update(entries: Seq<(String, String)>, i: int, pair: (String, String))
    requires
        names_distinct(entries),
        0 <= i < entries.len(),
        entries[i].0@ == pair.0@,
    ensures
        pairs_map(entries.update(i, pair)) == pairs_map(entries).insert(pair.0@, pair.1@),
        names_distinct(entries.update(i, pair)),
    decreases entries.len(),
{
    let updated = entries.update(i, pair);
    assert(names_distinct(updated)) by {
        assert forall|a: int, b: int| 0 <= a < b < updated.len() implies (#[trigger] updated[a]).0@
            != (#[trigger] updated[b]).0@ by {
            assert(entries[a].0@ != entries[b].0@);
        }
    }
    lemma_pairs_map_contents(entries);
    lemma_pairs_map_contents(updated);
    assert forall|k: Seq<char>| #[trigger]
        pairs_map(updated).contains_key(k) <==> pairs_map(entries).insert(
            pair.0@,
            pair.1@,
        ).contains_key(k) by {
        if pairs_map(entries).contains_key(k) {
            let j = choose|j: int| 0 <= j < entries.len() && (#[trigger] entries[j]).0@ == k;
            assert(updated[j].0@ == k);
        }
        if pairs_map(updated).contains_key(k) {
            let j = choose|j: int| 0 <= j < updated.len() && (#[trigger] updated[j]).0@ == k;
            assert(entries[j].0@ == k);
        }
        if k == pair.0@ {
            assert(updated[i].0@ == k);
        }
    }
    assert forall|k: Seq<char>| #[trigger] pairs_map(updated).contains_key(k) implies pairs_map(
        updated,
    )[k] == pairs_map(entries).insert(pair.0@, pair.1@)[k] by {
        let j = choose|j: int| 0 <= j < updated.len() && (#[trigger] updated[j]).0@ == k;
        assert(pairs_map(updated)[updated[j].0@] == updated[j].1@);
        if j != i {
            assert(entries[j] == updated[j]);
            assert(pairs_map(entries)[entries[j].0@] == entries[j].1@);
        }
    }
    assert(pairs_map(updated) =~= pairs_map(entries).insert(pair.0@, pair.1@));
}

impl View for AttribMap {
    type V = Map<Seq<char>, Seq<char>>;

    closed spec fn view(&self) -> Map<Seq<char>, Seq<char>> {
        pairs_map(self.entries@)
    }
}

impl AttribMap {
    #[verifier::type_invariant]
    spec fn names_unique(self) -> bool {
        names_distinct(self.entries@)
    }

    /// An empty map.
    pub fn new() -> (map: Self)
        ensures
            map@ == Map::<Seq<char>, Seq<char>>::empty(),
    {
        AttribMap { entries: Vec::new() }
    }

    /// The index of the entry named `name`, if any.
    fn position(&self, name: &String) -> (found: Option<usize>)
        ensures
            found matches Some(i) ==> i < self.entries@.len() && self.entries@[i as int].0@
                == name@,
            found is None ==> forall|i: int|
                0 <= i < self.entries@.len() ==> (#[trigger] self.entries@[i]).0@ != name@,
    {
        let mut i: usize = 0;
        while i < self.entries.len()
            invariant
                i <= self.entries@.len(),
                forall|j: int| 0 <= j < i ==> (#[trigger] self.entries@[j]).0@ != name@,
            decreases self.entries@.len() - i,
        {
            if self.entries[i].0 == *name {
                return Some(i);
            }
            i += 1;
        }
        None
    }

    /// Sets `name` to `value`, replacing any value it had.
    pub fn insert(&mut self, name: String, value: String)
        ensures
            final(self)@ == old(self)@.insert(name@, value@),
    {
        proof {
            use_type_invariant(&*self);
        }
        let found = self.position(&name);
        let mut entries: Vec<(String, String)> = Vec::new();
        std::mem::swap(&mut entries, &mut self.entries);
        match found {
            Some(i) => {
                proof {
                    lemma_pairs_map_update(entries@, i as int, (name, value));
                }
                entries.set(i, (name, value));
                self.entries = entries;
            },
            None => {
                let ghost old_entries = entries@;
                proof {
                    lemma_pairs_map_contents(old_entries);
                }
                entries.push((name, value));
                proof {
                    assert(entries@.drop_last() =~= old_entries);
                    assert forall|a: int, b: int| 0 <= a < b < entries@.len() implies (
                    #[trigger] entries@[a]).0@ != (#[trigger] entries@[b]).0@ by {
                        if b == old_entries.len() {
                            assert(entries@[a] == old_entries[a]);
                        } else {
                            assert(entries@[a] == old_entries[a]);
                            assert(entries@[b] == old_entries[b]);
                        }
                    }
                }
                self.entries = entries;
            },
        }
    }

    /// The value of `name`, if the map has one.
    pub fn get(&self, name: &str) -> (value: Option<&String>)
        ensures
            value matches Some(v) ==> self@.contains_key(name@) && v@ == self@[name@],
            value is None ==> !self@.contains_key(name@),
    {
        proof {
            use_type_invariant(self);
            lemma_pairs_map_contents(self.entries@);
        }
        let key = String::from_str(name);
        match self.position(&key) {
            Some(i) => Some(&self.entries[i].1),
            None => None,
        }
    }

    /// `true` when the map has a value for `name`.
    pub fn contains_key(&self, name: &str) -> (b: bool)
        ensures
            b == self@.contains_key(name@),
    {
        self.get(name).is_some()
    }

    /// The number of names in the map.
    pub fn len(&self) -> (n: usize)
        ensures
            n == self@.len(),
    {
        proof {
            use_type_invariant(self);
            lemma_pairs_map_contents(self.entries@);
        }
        self.entries.len()
    }
}

} // verus!

verus! {

/// Where the attribute scanner stands after some prefix of the input:
/// the pairs finished so far, the name and value being read, whether the
/// next character is escaped, and whether the name is complete (a `:`
/// was seen).
pub struct AttribScan {
    pub done: Map<Seq<char>, Seq<char>>,
    pub name: Seq<char>,
    pub value: Seq<char>,
    pub escaped: bool,
    pub in_value: bool,
}

/// The scanner before any character: nothing read, no pair done.
pub open spec fn attrib_scan_start() -> AttribScan {
    AttribScan {
        done: Map::empty(),
        name: Seq::empty(),
        value: Seq::empty(),
        escaped: false,
        in_value: false,
    }
}

/// `ch` added to the name or the value, whichever is being read.
pub open spec fn scan_take_char(s: AttribScan, ch: char) -> AttribScan {
    if s.in_value {
        AttribScan { value: s.value.push(ch), escaped: false, ..s }
    } else {
        AttribScan { name: s.name.push(ch), escaped: false, ..s }
    }
}

/// One character of an attribute string: `\` escapes the next character,
/// the first unescaped `:` ends the name, an unescaped `;` ends the pair
/// (kept only when it has a `:` and a non-empty name), and any other
/// character belongs to the name or the value.
pub open spec fn attrib_step(s: AttribScan, ch: char) -> AttribScan {
    if s.escaped {
        scan_take_char(s, ch)
    } else if ch == '\\' {
        AttribScan { escaped: true, ..s }
    } else if ch == ':' && !s.in_value {
        AttribScan { in_value: true, ..s }
    } else if ch == ';' {
        AttribScan {
            done: if s.in_value && s.name.len() > 0 {
                s.done.insert(s.name, s.value)
            } else {
                s.done
            },
            name: Seq::empty(),
            value: Seq::empty(),
            escaped: false,
            in_value: false,
        }
    } else {
        scan_take_char(s, ch)
    }
}

/// The scanner after reading all of `input`.
pub open spec fn attrib_scan(input: Seq<char>) -> AttribScan
    decreases input.len(),
{
    if input.len() == 0 {
        attrib_scan_start()
    } else {
        attrib_step(attrib_scan(input.drop_last()), input.last())
    }
}

/// The pairs of `input`, with a final pair that lacks its `;`.
pub open spec fn attrib_pairs(input: Seq<char>) -> Map<Seq<char>, Seq<char>> {
    let s = attrib_scan(input);
    if s.in_value && s.name.len() > 0 {
        s.done.insert(s.name, s.value)
    } else {
        s.done
    }
}

/// The attribute name `src`.
pub open spec fn src_name() -> Seq<char> {
    seq!['s', 'r', 'c']
}

/// The scheme that starts an inline `data:` URL.
pub open spec fn data_prefix() -> Seq<char> {
    seq!['d', 'a', 't', 'a', ':']
}

/// The marker of base64 content in a `data:` URL.
pub open spec fn base64_marker() -> Seq<char> {
    seq!['b', 'a', 's', 'e', '6', '4', ',']
}

/// What replaces the content of a truncated `data:` URL.
pub open spec fn truncated_marker() -> Seq<char> {
    seq!['<', 't', 'r', 'u', 'n', 'c', 'a', 't', 'e', 'd', '>']
}

/// A `data:` URL with inline base64 content, cut just after its first
/// `base64,` and marked `<truncated>`; any other value unchanged.
pub open spec fn base64_truncated(value: Seq<char>) -> Seq<char> {
    if starts_with_seq(value, data_prefix()) {
        match first_occurrence(value, base64_marker()) {
            Some(p) => value.take(p + base64_marker().len()) + truncated_marker(),
            None => value,
        }
    } else {
        value
    }
}

/// `map` with its `src` value passed through `base64_truncated`.
pub open spec fn with_src_truncated(map: Map<Seq<char>, Seq<char>>) -> Map<Seq<char>, Seq<char>> {
    if map.contains_key(src_name()) {
        map.insert(src_name(), base64_truncated(map[src_name()]))
    } else {
        map
    }
}

/// What `parse_attribs` gives for `input`.
pub open spec fn parsed_attribs(input: Seq<char>) -> Map<Seq<char>, Seq<char>> {
    with_src_truncated(attrib_pairs(input))
}

/// Cuts the content of an inline base64 `data:` URL out of the `src`
/// value: a value that starts with `data:` and holds `base64,` keeps what
/// comes up to and including the first `base64,`, followed by
/// `<truncated>`. Other values, and other names, stay as they are.
pub fn truncate_base64_src(map: &mut AttribMap)
    ensures
        final(map)@ == with_src_truncated(old(map)@),
{
    let src: String = match map.get("src") {
        Some(v) => v.clone(),
        None => {
            proof {
                reveal_strlit("src");
                assert("src"@ =~= src_name());
            }
            return ;
        },
    };
    proof {
        reveal_strlit("src");
        reveal_strlit("data:");
        reveal_strlit("base64,");
        reveal_strlit("<truncated>");
        assert("src"@ =~= src_name());
        assert("data:"@ =~= data_prefix());
        assert("base64,"@ =~= base64_marker());
        assert("<truncated>"@ =~= truncated_marker());
    }
    if !str_starts_with(src.as_str(), "data:") {
        return ;
    }
    let chars = chars_of(src.as_str());
    let marker = chars_of("base64,");
    let n = chars.len();
    match crate::search::find_chars(&chars, &marker) {
        Some(pos) => {
            proof {
                lemma_first_occurrence(src@, base64_marker());
                assert(occurs_at(chars@, marker@, pos as int));
                assert(pos + 7 <= n);
            }
            let kept = src.as_str().substring_char(0, pos + 7);
            let mut truncated = String::from_str(kept);
            truncated.append("<truncated>");
            map.insert(String::from_str("src"), truncated);
        },
        None => {
            proof {
                assert(map@.insert(src_name(), src@) =~= map@);
            }
        },
    }
}

/// Parses an IA2 attribute string `name:value;name:value;...`.
///
/// `\` makes the next character literal, the final `;` may be left out,
/// pairs without a name (or without a `:`) are dropped, a repeated name
/// keeps its last value, and a `src` holding an inline base64 `data:` URL
/// is truncated (see `truncate_base64_src`). Every name in the result is
/// non-empty.
pub fn parse_attribs(input: &str) -> (map: AttribMap)
    ensures
        map@ == parsed_attribs(input@),
        forall|name: Seq<char>| #[trigger] map@.contains_key(name) ==> name.len() > 0,
{
    let mut out = AttribMap::new();
    let mut key = String::new();
    let mut value = String::new();
    let mut in_escape = false;
    let mut have_key = false;
    let chars = chars_of(input);
    let mut i: usize = 0;
    while i < chars.len()
        invariant
            chars@ == input@,
            i <= chars@.len(),
            ({
                let s = attrib_scan(chars@.take(i as int));
                &&& out@ == s.done
                &&& key@ == s.name
                &&& value@ == s.value
                &&& in_escape == s.escaped
                &&& have_key == s.in_value
            }),
            forall|name: Seq<char>| #[trigger] out@.contains_key(name) ==> name.len() > 0,
        decreases chars@.len() - i,
    {
        let ch = chars[i];
        proof {
            assert(chars@.take(i + 1).drop_last() =~= chars@.take(i as int));
            assert(chars@.take(i + 1).last() == ch);
        }
        if in_escape {
            if have_key {
                push_char(&mut value, ch);
            } else {
                push_char(&mut key, ch);
            }
            in_escape = false;
        } else if ch == '\\' {
            in_escape = true;
        } else if ch == ':' && !have_key {
            have_key = true;
        } else if ch == ';' {
            if have_key && !key.as_str().is_empty() {
                out.insert(key, value);
            }
            key = String::new();
            value = String::new();
            have_key = false;
        } else if have_key {
            push_char(&mut value, ch);
        } else {
            push_char(&mut key, ch);
        }
        i += 1;
    }
    proof {
        assert(chars@.take(i as int) =~= input@);
    }
    if have_key && !key.as_str().is_empty() {
        out.insert(key, value);
    }
    truncate_base64_src(&mut out);
    out
}

} // verus!

verus! {

/// Cutting an already cut value changes nothing.
pub proof fn lemma_base64_truncated_idempotent(value: Seq<char>)
    ensures
        base64_truncated(base64_truncated(value)) == base64_truncated(value),
{
    let m = base64_marker();
    if starts_with_seq(value, data_prefix()) {
        lemma_first_occurrence(value, m);
        if let Some(p) = first_occurrence(value, m) {
            let cut = value.take(p + 7) + truncated_marker();
            assert(base64_truncated(value) == cut);
            assert(cut.take(5) =~= value.take(5));
            assert(starts_with_seq(cut, data_prefix()));
            assert(cut.subrange(p, p + 7) =~= value.subrange(p, p + 7));
            assert(occurs_at(cut, m, p));
            assert(m.len() == 7);
            assert(p + 7 <= value.len());
            assert forall|r: int| 0 <= r < p implies !occurs_at(cut, m, r) by {
                assert(cut.subrange(r, r + 7) =~= value.subrange(r, r + 7));
                assert(!occurs_at(value, m, r));
            }
            lemma_first_occurrence(cut, m);
            let q = first_occurrence(cut, m).unwrap();
            assert(q == p);
            assert(cut.take(p + 7) =~= value.take(p + 7));
        }
    }
}

/// Truncating the `src` value twice is truncating it once: a second call
/// of `truncate_base64_src` leaves the map as it is.
pub proof fn lemma_src_truncation_idempotent(map: Map<Seq<char>, Seq<char>>)
    ensures
        with_src_truncated(with_src_truncated(map)) == with_src_truncated(map),
{
    if map.contains_key(src_name()) {
        lemma_base64_truncated_idempotent(map[src_name()]);
        assert(with_src_truncated(with_src_truncated(map)) =~= with_src_truncated(map));
    }
}

/// `c` as it is written in an attribute string: `\`, `:` and `;` are
/// preceded by `\`.
pub open spec fn escaped_char(c: char) -> Seq<char> {
    if c == '\\' || c == ':' || c == ';' {
        seq!['\\', c]
    } else {
        seq![c]
    }
}

/// `text` as it is written in an attribute string, each character escaped
/// as needed.
pub open spec fn escaped_text(text: Seq<char>) -> Seq<char>
    decreases text.len(),
{
    if text.len() == 0 {
        Seq::empty()
    } else {
        escaped_text(text.drop_last()) + escaped_char(text.last())
    }
}

/// The attribute string of a list of pairs: `name:value;` for each pair,
/// name and value escaped.
pub open spec fn attrib_text(pairs: Seq<(Seq<char>, Seq<char>)>) -> Seq<char>
    decreases pairs.len(),
{
    if pairs.len() == 0 {
        Seq::empty()
    } else {
        let (name, value) = pairs.last();
        attrib_text(pairs.drop_last()) + escaped_text(name) + seq![':'] + escaped_text(value) + seq![';']
    }
}

/// The map of a list of pairs, a later pair replacing an earlier one with
/// the same name.
pub open spec fn pairs_to_map(pairs: Seq<(Seq<char>, Seq<char>)>) -> Map<Seq<char>, Seq<char>>
    decreases pairs.len(),
{
    if pairs.len() == 0 {
        Map::empty()
    } else {
        pairs_to_map(pairs.drop_last()).insert(pairs.last().0, pairs.last().1)
    }
}

/// The scanner after reading `input`, starting from `s`.
pub open spec fn scan_from(s: AttribScan, input: Seq<char>) -> AttribScan
    decreases input.len(),
{
    if input.len() == 0 {
        s
    } else {
        attrib_step(scan_from(s, input.drop_last()), input.last())
    }
}

proof fn lemma_scan_is_scan_from(input: Seq<char>)
    ensures
        attrib_scan(input) == scan_from(attrib_scan_start(), input),
    decreases input.len(),
{
    if input.len() > 0 {
        lemma_scan_is_scan_from(input.drop_last());
    }
}

proof fn lemma_scan_from_concat(s: AttribScan, a: Seq<char>, b: Seq<char>)
    ensures
        scan_from(s, a + b) == scan_from(scan_from(s, a), b),
    decreases b.len(),
{
    if b.len() == 0 {
        assert(a + b =~= a);
    } else {
        lemma_scan_from_concat(s, a, b.drop_last());
        assert((a + b).drop_last() =~= a + b.drop_last());
        assert((a + b).last() == b.last());
    }
}

proof fn lemma_scan_one(s: AttribScan, c: char)
    ensures
        scan_from(s, seq![c]) == attrib_step(s, c),
{
    assert(seq![c].drop_last() =~= Seq::<char>::empty());
    assert(scan_from(s, seq![c].drop_last()) == s);
    assert(seq![c].last() == c);
}

/// Reading an escaped text adds it, as it was, to the name or the value
/// being read.
proof fn lemma_scan_escaped(s: AttribScan, text: Seq<char>)
    requires
        !s.escaped,
    ensures
        scan_from(s, escaped_text(text)) == (if s.in_value {
            AttribScan { value: s.value + text, ..s }
        } else {
            AttribScan { name: s.name + text, ..s }
        }),
    decreases text.len(),
{
    if text.len() == 0 {
        assert(s.value + text =~= s.value);
        assert(s.name + text =~= s.name);
    } else {
        let c = text.last();
        let prefix = text.drop_last();
        lemma_scan_escaped(s, prefix);
        lemma_scan_from_concat(s, escaped_text(prefix), escaped_char(c));
        let s1 = scan_from(s, escaped_text(prefix));
        if c == '\\' || c == ':' || c == ';' {
            lemma_scan_from_concat(s1, seq!['\\'], seq![c]);
            assert(seq!['\\'] + seq![c] =~= escaped_char(c));
            lemma_scan_one(s1, '\\');
            lemma_scan_one(attrib_step(s1, '\\'), c);
        } else {
            lemma_scan_one(s1, c);
        }
        assert((s.value + prefix).push(c) =~= s.value + text);
        assert((s.name + prefix).push(c) =~= s.name + text);
    }
}

/// Reading the attribute string of `pairs` from a fresh scanner finishes
/// every pair and leaves nothing half read.
proof fn lemma_scan_attrib_text(pairs: Seq<(Seq<char>, Seq<char>)>)
    requires
        forall|i: int| 0 <= i < pairs.len() ==> (#[trigger] pairs[i]).0.len() > 0,
    ensures
        scan_from(attrib_scan_start(), attrib_text(pairs)) == (AttribScan {
            done: pairs_to_map(pairs),
            ..attrib_scan_start()
        }),
    decreases pairs.len(),
{
    if pairs.len() > 0 {
        let (name, value) = pairs.last();
        assert(pairs.last() == pairs[pairs.len() - 1]);
        lemma_scan_attrib_text(pairs.drop_last());
        let s0 = AttribScan { done: pairs_to_map(pairs.drop_last()), ..attrib_scan_start() };
        let head = attrib_text(pairs.drop_last());
        let en = escaped_text(name);
        let ev = escaped_text(value);
        assert(attrib_text(pairs) == head + en + seq![':'] + ev + seq![';']);
        lemma_scan_from_concat(attrib_scan_start(), head + en + seq![':'] + ev, seq![';']);
        lemma_scan_from_concat(attrib_scan_start(), head + en + seq![':'], ev);
        lemma_scan_from_concat(attrib_scan_start(), head + en, seq![':']);
        lemma_scan_from_concat(attrib_scan_start(), head, en);
        lemma_scan_escaped(s0, name);
        let s1 = AttribScan { name: s0.name + name, ..s0 };
        assert(s0.name + name =~= name);
        lemma_scan_one(s1, ':');
        let s2 = AttribScan { in_value: true, ..s1 };
        assert(scan_from(s1, seq![':']) == s2);
        lemma_scan_escaped(s2, value);
        let s3 = AttribScan { value: s2.value + value, ..s2 };
        assert(s2.value + value =~= value);
        lemma_scan_one(s3, ';');
        assert(scan_from(s3, seq![';']) == (AttribScan { done: pairs_to_map(pairs), ..attrib_scan_start() }));
    }
}

/// Writing pairs as an attribute string (`name:value;` each, with `\`
/// before every `\`, `:` and `;`) and parsing it gives back their map,
/// provided that no name is empty and that any `src` value is not an
/// inline base64 `data:` URL (which parsing truncates).
pub proof fn lemma_parse_attribs_round_trips(pairs: Seq<(Seq<char>, Seq<char>)>)
    requires
        forall|i: int| 0 <= i < pairs.len() ==> (#[trigger] pairs[i]).0.len() > 0,
        pairs_to_map(pairs).contains_key(src_name()) ==> !(starts_with_seq(
            pairs_to_map(pairs)[src_name()],
            data_prefix(),
        ) && contains_seq(pairs_to_map(pairs)[src_name()], base64_marker())),
    ensures
        parsed_attribs(attrib_text(pairs)) == pairs_to_map(pairs),
{
    lemma_scan_is_scan_from(attrib_text(pairs));
    lemma_scan_attrib_text(pairs);
    let m = pairs_to_map(pairs);
    assert(attrib_pairs(attrib_text(pairs)) == m);
    if m.contains_key(src_name()) {
        lemma_first_occurrence(m[src_name()], base64_marker());
        assert(base64_truncated(m[src_name()]) == m[src_name()]);
        assert(with_src_truncated(m) =~= m);
    }
}

} // verus!
