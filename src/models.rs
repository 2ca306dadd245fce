//! The values handed to the presentation layer: books, chapters, speech
//! requests and their answers.
use vstd::prelude::*;
use crate::text::word_count;

verus! {

/// A chapter with its text.
#[derive(Debug)]
pub struct Chapter {
    pub id: String,
    pub title: String,
    pub text: String,
    pub word_count: usize,
}

pub struct ChapterView {
    pub id: Seq<char>,
    pub title: Seq<char>,
    pub text: Seq<char>,
    pub word_count: nat,
}

impl View for Chapter {
    type V = ChapterView;

    open spec fn view(&self) -> ChapterView {
        ChapterView {
            id: self.id@,
            title: self.title@,
            text: self.text@,
            word_count: self.word_count as nat,
        }
    }
}

/// A chapter has text, and its word count is the number of
/// whitespace-separated tokens of that text.
pub open spec fn chapter_wf(c: ChapterView) -> bool {
    c.text.len() > 0 && c.word_count == word_count(c.text)
}

pub open spec fn chapters_view(v: Seq<Chapter>) -> Seq<ChapterView> {
    v.map_values(|c: Chapter| c@)
}

/// A book as read from an EPUB archive.
#[derive(Debug)]
pub struct Book {
    pub title: String,
    pub author: Option<String>,
    pub chapters: Vec<Chapter>,
    pub cover_base64: Option<String>,
    pub cover_mime: Option<String>,
}

/// Which voice reads the text aloud.
#[derive(Debug, Clone, Copy, PartialEq, Eq, Structural)]
pub enum VoiceMode {
    Neutral,
    External,
    Minimax,
    Elevenlabs,
}

/// A speech service of the user's own choosing.
#[derive(Debug)]
pub struct ExternalTtsConfig {
    pub api_base_url: String,
    pub voice_id: Option<String>,
    pub output_format: Option<String>,
}

/// A request to read a chapter aloud.
#[derive(Debug)]
pub struct TtsRequest {
    pub chapter_id: String,
    pub text: String,
    pub voice_mode: VoiceMode,
    pub external: Option<ExternalTtsConfig>,
    pub minimax: Option<MinimaxTtsConfig>,
    pub elevenlabs: Option<ElevenLabsTtsConfig>,
}

#[derive(Debug)]
pub struct MinimaxTtsConfig {
    pub voice_id: Option<String>,
    pub model: Option<String>,
    pub output_format: Option<String>,
}

#[derive(Debug)]
pub struct MinimaxUploadRequest {
    pub filename: String,
    pub audio_base64: String,
}

#[derive(Debug)]
pub struct MinimaxUploadResponse {
    pub file_id: i64,
    pub filename: String,
}

#[derive(Debug)]
pub struct MinimaxCloneRequest {
    pub file_id: i64,
    pub voice_id: String,
}

#[derive(Debug)]
pub struct MinimaxCloneResponse {
    pub voice_id: String,
    pub demo_audio: Option<String>,
}

#[derive(Debug)]
pub struct ElevenLabsTtsConfig {
    pub voice_id: Option<String>,
    pub model: Option<String>,
}

#[derive(Debug)]
pub struct ElevenLabsCloneRequest {
    pub name: String,
    pub filename: String,
    pub audio_base64: String,
}

#[derive(Debug)]
pub struct ElevenLabsCloneResponse {
    pub voice_id: String,
    pub name: String,
}

/// Synthesised speech for a chapter.
#[derive(Debug)]
pub struct AudioClip {
    pub chapter_id: String,
    pub audio_base64: String,
    pub mime: String,
}

} // verus!
