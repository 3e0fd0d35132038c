//! Interactive batch annotation of audio recordings.
//!
//! The library holds the verified core of a terminal session that walks a
//! user through a batch of audio files, collecting a location and a set of
//! tags for each file while it plays, and finally converts the batch to a
//! lossless format, writing the collected metadata into the last output
//! file. Rendering, the audio device, the filesystem and the external
//! encoder live outside the library; the session logic, the waveform
//! summarizer, the tag parsing and the finalization ordering are verified
//! here.

pub mod finalize;
pub mod metadata;
pub mod session;
pub mod strings;
pub mod waveform;
