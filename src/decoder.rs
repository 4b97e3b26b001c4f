//! The calculator's state: the text last entered and the results shown for it.
use vstd::prelude::*;

use crate::cipher::{compute, results_of, CipherResult, MAX_TEXT_CHARS};

verus! {

/// An event the calculator reacts to.
pub enum DecoderMsg {
    /// The input text now reads as given.
    UpdateInput(String),
}

/// The text being decoded, and the results for it (none while it is empty).
pub struct GematriaDecoder {
    pub input_value: String,
    pub results: Vec<CipherResult>,
}

impl GematriaDecoder {
    /// Results shown, as their views.
    pub open spec fn results_view(&self) -> Seq<(Seq<char>, int, Seq<char>)> {
        self.results@.map_values(|x: CipherResult| x@)
    }

    /// The results always are those of the current text.
    pub open spec fn wf(&self) -> bool {
        self.results_view() == results_of(self.input_value@)
    }

    /// An empty calculator: no text, no results.
    pub fn create() -> (r: Self)
        ensures
            r.input_value@ == Seq::<char>::empty(),
            r.results@.len() == 0,
            r.wf(),
    {
        let r = GematriaDecoder { input_value: String::new(), results: Vec::new() };
        assert(r.results_view() =~= results_of(r.input_value@));
        r
    }

    /// Takes in the new text and recomputes the results in full; empty text
    /// clears them. Always asks for a redraw.
    pub fn update(&mut self, msg: DecoderMsg) -> (redraw: bool)
        requires
            match msg {
                DecoderMsg::UpdateInput(val) => val@.len() <= MAX_TEXT_CHARS,
            },
        ensures
            redraw,
            match msg {
                DecoderMsg::UpdateInput(val) => {
                    &&& final(self).input_value@ == val@
                    &&& final(self).results_view() == results_of(val@)
                },
            },
            final(self).wf(),
    {
        match msg {
            DecoderMsg::UpdateInput(val) => {
                if val.as_str().unicode_len() == 0 {
                    self.input_value = val;
                    self.results.clear();
                    assert(self.results_view() =~= results_of(self.input_value@));
                    return true;
                }
                self.results = compute(val.as_str());
                self.input_value = val;
                true
            },
        }
    }
}

} // verus!
