//! The decisions of the OneCore speech engine that do not need the
//! speech API itself: which API contract a feature needs, the markers
//! text handed back with each utterance, and the voice list entries.

use crate::strings::{append_str, push_char};
use crate::wide::{append_units, dec64, decimal};
use vstd::prelude::*;

verus! {

/// Asks `contract_present` whether version 5.0 of the universal API
/// contract, the first that sets rate, pitch and volume live, is present.
pub fn supports_prosody_options<F: Fn(u16, u16) -> bool>(contract_present: &F) -> (b: bool)
    requires
        contract_present.requires((5u16, 0u16)),
    ensures
        contract_present.ensures((5u16, 0u16), b),
{
    contract_present(5, 0)
}

/// Asks `contract_present` whether version 6.0 of the universal API
/// contract, the first with punctuation-silence control, is present.
pub fn supports_punctuation_silence<F: Fn(u16, u16) -> bool>(contract_present: &F) -> (b: bool)
    requires
        contract_present.requires((6u16, 0u16)),
    ensures
        contract_present.ensures((6u16, 0u16), b),
{
    contract_present(6, 0)
}

/// How long the synthesizer pauses at punctuation.
#[derive(Clone, Copy, PartialEq, Eq, Structural, Debug)]
pub enum PunctuationSilence {
    Default,
    Min,
}

/// The punctuation pause for the `silence` setting: the default pause
/// when it is on, the shortest otherwise.
pub open spec fn mode_for_setting(silence: bool) -> PunctuationSilence {
    if silence {
        PunctuationSilence::Default
    } else {
        PunctuationSilence::Min
    }
}

/// The setting that a punctuation pause reads back as: on exactly for the
/// default pause, off when the pause could not be read.
pub open spec fn setting_of_mode(mode: Option<PunctuationSilence>) -> bool {
    mode == Some(PunctuationSilence::Default)
}

/// The punctuation pause for the `silence` setting.
pub fn punctuation_mode(silence: bool) -> (mode: PunctuationSilence)
    ensures
        mode == mode_for_setting(silence),
{
    if silence {
        PunctuationSilence::Default
    } else {
        PunctuationSilence::Min
    }
}

/// The setting that a punctuation pause reads back as.
pub fn punctuation_silence_of(mode: Option<PunctuationSilence>) -> (silence: bool)
    ensures
        silence == setting_of_mode(mode),
{
    match mode {
        Some(PunctuationSilence::Default) => true,
        _ => false,
    }
}

/// The punctuation setting reads back as it was set: the pause written
/// for a setting is read as that same setting.
pub proof fn lemma_punctuation_setting_round_trips(silence: bool)
    ensures
        setting_of_mode(Some(mode_for_setting(silence))) == silence,
{
}

/// The markers text of an utterance: `text:time` for each marker that
/// could be read, joined by `|`, with the time in 100 ns ticks. A marker
/// that could not be read (`None`) is left out, and every readable marker
/// but the very first of the list is preceded by `|`.
pub open spec fn markers_text(markers: Seq<Option<(Seq<u16>, i64)>>) -> Seq<u16>
    decreases markers.len(),
{
    if markers.len() == 0 {
        Seq::empty()
    } else {
        let before = markers_text(markers.drop_last());
        match markers.last() {
            None => before,
            Some((text, time)) => before + (if markers.len() == 1 {
                Seq::empty()
            } else {
                seq![0x7Cu16]
            }) + text + seq![0x3Au16] + decimal(time as int),
        }
    }
}

/// The view of a list of markers.
pub open spec fn marker_views(markers: Seq<Option<(Vec<u16>, i64)>>) -> Seq<
    Option<(Seq<u16>, i64)>,
> {
    markers.map_values(
        |m: Option<(Vec<u16>, i64)>|
            match m {
                Some((text, time)) => Some((text@, time)),
                None => None,
            },
    )
}

/// The markers text of an utterance from its markers, each with its text
/// and time, or `None` where it could not be read.
pub fn markers_string(markers: &[Option<(Vec<u16>, i64)>]) -> (text: Vec<u16>)
    ensures
        text@ == markers_text(marker_views(markers@)),
{
    let ghost views = marker_views(markers@);
    let mut out: Vec<u16> = Vec::new();
    let mut k: usize = 0;
    while k < markers.len()
        invariant
            k <= markers@.len(),
            views == marker_views(markers@),
            out@ == markers_text(views.take(k as int)),
        decreases markers@.len() - k,
    {
        proof {
            let next = views.take(k + 1);
            assert(next.drop_last() =~= views.take(k as int));
            assert(next.last() == views[k as int]);
        }
        match &markers[k] {
            None => {},
            Some((marker_text, time)) => {
                if k != 0 {
                    out.push(0x7C);
                }
                append_units(&mut out, marker_text.as_slice());
                out.push(0x3A);
                let digits = dec64(*time);
                append_units(&mut out, digits.as_slice());
            },
        }
        proof {
            let next = views.take(k + 1);
            assert(out@ =~= markers_text(next));
        }
        k += 1;
    }
    assert(views.take(markers@.len() as int) =~= views);
    out
}

/// A voice list entry: `id:language:name`.
pub fn voice_entry(id: &str, language: &str, name: &str) -> (entry: String)
    ensures
        entry@ == id@ + seq![':'] + language@ + seq![':'] + name@,
{
    let mut entry = String::new();
    append_str(&mut entry, id);
    push_char(&mut entry, ':');
    append_str(&mut entry, language);
    push_char(&mut entry, ':');
    append_str(&mut entry, name);
    assert(entry@ =~= id@ + seq![':'] + language@ + seq![':'] + name@);
    entry
}

} // verus!
