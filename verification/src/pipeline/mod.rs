//! The event-driven pipeline: the parser of note timelines, the pool of
//! voices, and the scheduler that renders a timeline frame by frame.

pub mod parser;
pub mod scheduler;
pub mod voicemgr;


pub use parser::{parse_transcription, Event, KeyDirection, Note, ParseError, TimedEvents};
pub use scheduler::{Pipeline, PipelineConfig};
pub use voicemgr::{VoiceConfig, VoiceManager};
