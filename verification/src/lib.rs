//! Verified core of the Strudel CLAP plugin: sound-name tables, the voice
//! scheduler of the built-in synthesizer, the pre-rendered event buffers,
//! the evaluation-thread decisions and the scripts sent to the pattern engine.
use vstd::prelude::*;

pub mod event;
pub mod event_buffer;
pub mod eval_state;
pub mod script;
pub mod sound;
pub mod voice;

verus! {

} // verus!
