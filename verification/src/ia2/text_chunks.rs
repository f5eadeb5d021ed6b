//! Rendering a node's IAccessible2 text: the text is cut into chunks at
//! the ends of attribute runs and at embedded-object characters, and each
//! embedded object stands for the next hyperlink child.
//!
//! The walk is a state machine. Each `step` looks at one offset and says
//! what to do there: add a chunk of text, fetch the attribute run that
//! starts here (and hand it back with `run_fetched` before the next
//! step), render the next hyperlink for an embedded object, or stop.

use crate::attribs::AttribMap;
use crate::ia2::table_cell::attribute_views;
use crate::ia2::vbuf_rules::EMBEDDED_OBJ_CHAR;
use crate::wide::{dec, decimal};
use vstd::prelude::*;

verus! {

/// `s` without its embedded-object characters.
pub open spec fn strip_objects(s: Seq<u16>) -> Seq<u16>
    decreases s.len(),
{
    if s.len() == 0 {
        Seq::empty()
    } else if s.last() == EMBEDDED_OBJ_CHAR {
        strip_objects(s.drop_last())
    } else {
        strip_objects(s.drop_last()).push(s.last())
    }
}

/// No embedded-object character occurs in `s`.
pub open spec fn object_free(s: Seq<u16>) -> bool {
    forall|k: int| 0 <= k < s.len() ==> s[k] != EMBEDDED_OBJ_CHAR
}

proof fn lemma_strip_concat(a: Seq<u16>, b: Seq<u16>)
    ensures
        strip_objects(a + b) == strip_objects(a) + strip_objects(b),
    decreases b.len(),
{
    if b.len() == 0 {
        assert(a + b =~= a);
        assert(strip_objects(b) =~= Seq::<u16>::empty());
        assert(strip_objects(a) + strip_objects(b) =~= strip_objects(a));
    } else {
        lemma_strip_concat(a, b.drop_last());
        assert((a + b).drop_last() =~= a + b.drop_last());
        assert((a + b).last() == b.last());
        if b.last() != EMBEDDED_OBJ_CHAR {
            assert(strip_objects(a) + strip_objects(b.drop_last()).push(b.last()) =~= (
            strip_objects(a) + strip_objects(b.drop_last())).push(b.last()));
        }
    }
}

proof fn lemma_strip_object_free(s: Seq<u16>)
    requires
        object_free(s),
    ensures
        strip_objects(s) == s,
    decreases s.len(),
{
    if s.len() > 0 {
        lemma_strip_object_free(s.drop_last());
        assert(strip_objects(s.drop_last()).push(s.last()) =~= s);
    }
}

/// What to do at one offset of the walk.
pub struct ChunkStep {
    /// Add the text between these offsets as a text node, with the
    /// attributes of the current run (read before `run_fetched`).
    pub chunk: Option<(usize, usize)>,
    /// Fetch the attribute run that starts at this offset.
    pub fetch_at: Option<i32>,
    /// Render the next hyperlink for the embedded object at this offset.
    pub embedded_at: Option<usize>,
    /// The walk is over.
    pub done: bool,
}

/// The walk over a node's text.
pub struct TextChunker {
    text: Ghost<Seq<u16>>,
    emitted: Ghost<Seq<u16>>,
    text_len: usize,
    i: usize,
    chunk_start: usize,
    attribs_end: i32,
    awaiting_run: bool,
    finished: bool,
    run_attribs: AttribMap,
}

/// The state of a walk as plain values.
pub struct ChunkerView {
    pub text: Seq<u16>,
    pub emitted: Seq<u16>,
    pub i: int,
    pub chunk_start: int,
    pub attribs_end: int,
    pub awaiting_run: bool,
    pub finished: bool,
}

impl View for TextChunker {
    type V = ChunkerView;

    closed spec fn view(&self) -> ChunkerView {
        ChunkerView {
            text: self.text@,
            emitted: self.emitted@,
            i: self.i as int,
            chunk_start: self.chunk_start as int,
            attribs_end: self.attribs_end as int,
            awaiting_run: self.awaiting_run,
            finished: self.finished,
        }
    }
}

/// The walk's own consistency: the text before the pending chunk has
/// been handed out without its objects, and the pending part holds no
/// object.
pub open spec fn chunker_wf(v: ChunkerView) -> bool {
    &&& v.text.len() <= i32::MAX
    &&& 0 <= v.chunk_start <= v.i <= v.text.len()
    &&& v.emitted == strip_objects(v.text.take(v.chunk_start))
    &&& object_free(v.text.subrange(v.chunk_start, v.i))
    &&& v.finished ==> v.chunk_start == v.i == v.text.len()
}

/// The step at the walk's current offset.
pub open spec fn step_of(v: ChunkerView) -> ChunkStep {
    let len = v.text.len() as int;
    let at_end = v.i == len;
    let at_run = v.i == v.attribs_end;
    let at_obj = v.i < len && v.text[v.i] == EMBEDDED_OBJ_CHAR;
    ChunkStep {
        chunk: if v.i != v.chunk_start && (at_end || at_run || at_obj) {
            Some((v.chunk_start as usize, v.i as usize))
        } else {
            None
        },
        fetch_at: if !at_end && at_run {
            Some(v.attribs_end as i32)
        } else {
            None
        },
        embedded_at: if !at_end && at_obj {
            Some(v.i as usize)
        } else {
            None
        },
        done: at_end,
    }
}

/// The walk after the step at its current offset: the pending chunk
/// restarts after an object or at a run start, and the offset moves on.
pub open spec fn after_step(v: ChunkerView) -> ChunkerView {
    let len = v.text.len() as int;
    let at_end = v.i == len;
    let at_run = v.i == v.attribs_end;
    let at_obj = v.i < len && v.text[v.i] == EMBEDDED_OBJ_CHAR;
    let emitted = if v.i != v.chunk_start && (at_end || at_run || at_obj) {
        v.emitted + v.text.subrange(v.chunk_start, v.i)
    } else {
        v.emitted
    };
    if at_end {
        ChunkerView { emitted, chunk_start: len, finished: true, ..v }
    } else {
        ChunkerView {
            emitted,
            chunk_start: if at_obj {
                v.i + 1
            } else if at_run {
                v.i
            } else {
                v.chunk_start
            },
            i: v.i + 1,
            awaiting_run: at_run,
            ..v
        }
    }
}

impl TextChunker {
    #[verifier::type_invariant]
    spec fn lengths_agree(&self) -> bool {
        self.text_len == self.text@.len() && self.text_len <= i32::MAX
    }

    /// The attributes of the current run.
    pub fn run_attributes(&self) -> (attribs: &AttribMap)
        ensures
            attribs@ == self.run_map(),
    {
        &self.run_attribs
    }

    /// The attributes of the current run, as a map.
    pub closed spec fn run_map(&self) -> Map<Seq<char>, Seq<char>> {
        self.run_attribs@
    }

    /// A walk over `text` from its start, with an empty run that ends at
    /// offset 0 (so the first step fetches the first run).
    pub fn new(text: &[u16]) -> (walk: TextChunker)
        requires
            text@.len() <= i32::MAX,
        ensures
            walk@.text == text@,
            walk@.emitted == Seq::<u16>::empty(),
            walk@.i == 0 && walk@.chunk_start == 0 && walk@.attribs_end == 0,
            !walk@.awaiting_run && !walk@.finished,
            walk.run_map() == Map::<Seq<char>, Seq<char>>::empty(),
            chunker_wf(walk@),
    {
        let walk = TextChunker {
            text: Ghost(text@),
            emitted: Ghost(Seq::empty()),
            text_len: text.len(),
            i: 0,
            chunk_start: 0,
            attribs_end: 0,
            awaiting_run: false,
            finished: false,
            run_attribs: AttribMap::new(),
        };
        assert(text@.take(0) =~= Seq::<u16>::empty());
        assert(text@.subrange(0, 0) =~= Seq::<u16>::empty());
        walk
    }

    /// `true` once the walk is over.
    pub fn is_finished(&self) -> (b: bool)
        ensures
            b == self@.finished,
    {
        self.finished
    }

    /// `true` while the walk waits for the run it asked for.
    pub fn is_awaiting_run(&self) -> (b: bool)
        ensures
            b == self@.awaiting_run,
    {
        self.awaiting_run
    }

    /// The step at the current offset. What it emits is the text handed
    /// out so far; the walk stays consistent.
    pub fn step(&mut self, text: &[u16]) -> (step: ChunkStep)
        requires
            chunker_wf(old(self)@),
            text@ == old(self)@.text,
            !old(self)@.awaiting_run,
            !old(self)@.finished,
        ensures
            step == step_of(old(self)@),
            final(self)@ == after_step(old(self)@),
            final(self).run_map() == old(self).run_map(),
            chunker_wf(final(self)@),
            step.chunk matches Some((s, e)) ==> s < e <= text@.len() && final(self)@.emitted
                == old(self)@.emitted + text@.subrange(s as int, e as int),
    {
        proof {
            use_type_invariant(&*self);
        }
        let ghost v = self@;
        let len = text.len();
        let i = self.i;
        let cs = self.chunk_start;
        let at_end = i == len;
        let at_run = (i as i64) == (self.attribs_end as i64);
        let at_obj = i < len && text[i] == EMBEDDED_OBJ_CHAR;
        let chunk = if i != cs && (at_end || at_run || at_obj) {
            Some((cs, i))
        } else {
            None
        };
        proof {
            let before = v.text.take(cs as int);
            let pending = v.text.subrange(cs as int, i as int);
            assert(v.text.take(i as int) =~= before + pending);
            lemma_strip_concat(before, pending);
            lemma_strip_object_free(pending);
        }
        if i != cs && (at_end || at_run || at_obj) {
            self.emitted = Ghost(self.emitted@ + v.text.subrange(cs as int, i as int));
        }
        if at_end {
            self.chunk_start = len;
            self.finished = true;
            proof {
                assert(v.text.take(len as int) =~= v.text);
                assert(v.text.subrange(len as int, len as int) =~= Seq::<u16>::empty());
            }
            return ChunkStep { chunk, fetch_at: None, embedded_at: None, done: true };
        }
        let fetch_at = if at_run {
            Some(self.attribs_end)
        } else {
            None
        };
        let embedded_at = if at_obj {
            Some(i)
        } else {
            None
        };
        proof {
            let upto = v.text.take(i as int + 1);
            assert(upto =~= v.text.take(i as int).push(v.text[i as int]));
            assert(upto.drop_last() =~= v.text.take(i as int));
        }
        if at_obj {
            self.chunk_start = i + 1;
        } else if at_run {
            self.chunk_start = i;
            assert(v.text.subrange(i as int, i + 1) =~= seq![v.text[i as int]]);
        } else {
            assert(v.text.subrange(cs as int, i + 1) =~= v.text.subrange(cs as int, i as int).push(
                v.text[i as int],
            ));
        }
        self.i = i + 1;
        self.awaiting_run = at_run;
        proof {
            let c = self.chunk_start as int;
            if at_obj {
                assert(v.text.subrange(c, i + 1) =~= Seq::<u16>::empty());
            }
        }
        ChunkStep { chunk, fetch_at, embedded_at, done: false }
    }

    /// Hands the walk the run it asked for: its end and its attributes
    /// (`None` when the run had none), or `None` when it could not be
    /// fetched, which makes the run last to the end of the text.
    pub fn run_fetched(&mut self, end: Option<i32>, attribs: Option<AttribMap>)
        requires
            chunker_wf(old(self)@),
        ensures
            final(self)@ == (ChunkerView {
                attribs_end: match end {
                    Some(e) => e as int,
                    None => old(self)@.text.len() as int,
                },
                awaiting_run: false,
                ..old(self)@
            }),
            final(self).run_map() == (match (end, attribs) {
                (Some(_), Some(a)) => a@,
                _ => Map::<Seq<char>, Seq<char>>::empty(),
            }),
            chunker_wf(final(self)@),
    {
        proof {
            use_type_invariant(&*self);
        }
        match end {
            Some(e) => {
                self.attribs_end = e;
                self.run_attribs = match attribs {
                    Some(a) => a,
                    None => AttribMap::new(),
                };
            },
            None => {
                self.attribs_end = self.text_len as i32;
                self.run_attribs = AttribMap::new();
            },
        }
        self.awaiting_run = false;
    }
}

/// Once a walk is over, the chunks it handed out, in order, are the text
/// without its embedded-object characters: every other character is
/// rendered exactly once.
pub proof fn lemma_walk_renders_text_once(v: ChunkerView)
    requires
        chunker_wf(v),
        v.finished,
    ensures
        v.emitted == strip_objects(v.text),
{
    assert(v.text.take(v.text.len() as int) =~= v.text);
}


/// The attributes that tie a text node to where its text starts in its
/// object: the offset, the window handle and the object's unique id.
pub fn text_position_attributes(offset: i32, doc_handle: i32, id: i32) -> (attrs: Vec<
    (&'static str, Vec<u16>),
>)
    ensures
        attribute_views(attrs@) == seq![
            ("ia2TextStartOffset"@, decimal(offset as int)),
            ("ia2TextWindowHandle"@, decimal(doc_handle as int)),
            ("ia2TextUniqueID"@, decimal(id as int)),
        ],
{
    let mut attrs: Vec<(&'static str, Vec<u16>)> = Vec::new();
    attrs.push(("ia2TextStartOffset", dec(offset)));
    attrs.push(("ia2TextWindowHandle", dec(doc_handle)));
    attrs.push(("ia2TextUniqueID", dec(id)));
    assert(attribute_views(attrs@) =~= seq![
        ("ia2TextStartOffset"@, decimal(offset as int)),
        ("ia2TextWindowHandle"@, decimal(doc_handle as int)),
        ("ia2TextUniqueID"@, decimal(id as int)),
    ]);
    attrs
}

} // verus!
