//! MIME types of the codecs that a session can negotiate.

use vstd::prelude::*;
use crate::error::Error;
use crate::text::same_text;

verus! {

/// The codecs known to the library, named as in session descriptions.
#[allow(clippy::upper_case_acronyms)]
#[derive(Clone, Copy, Debug, PartialEq, Eq, Structural)]
pub enum MimeType {
    /// Advanced Video Coding.
    H264,
    /// Royalty-free video compression format.
    VP8,
    /// Royalty-free video coding format, successor of VP8.
    VP9,
    /// Royalty-free video coding format, successor of VP9.
    AV1,
    /// Lossy audio coding format.
    OPUS,
    /// Wideband audio codec, common in VoIP.
    G722,
    /// Narrowband audio codec, G.711 mu-law.
    PCMU,
    /// Narrowband audio codec, G.711 A-law.
    PCMA,
}

impl MimeType {
    /// The text of this MIME type.
    pub open spec fn spec_text(self) -> Seq<char> {
        match self {
            MimeType::H264 => "video/H264"@,
            MimeType::VP8 => "video/VP8"@,
            MimeType::VP9 => "video/VP9"@,
            MimeType::AV1 => "video/AV1"@,
            MimeType::OPUS => "audio/opus"@,
            MimeType::G722 => "audio/G722"@,
            MimeType::PCMU => "audio/PCMU"@,
            MimeType::PCMA => "audio/PCMA"@,
        }
    }

    /// The text of this MIME type, as a string slice.
    pub fn as_str(&self) -> (text: &'static str)
        ensures
            text@ == self.spec_text(),
    {
        match self {
            MimeType::H264 => "video/H264",
            MimeType::VP8 => "video/VP8",
            MimeType::VP9 => "video/VP9",
            MimeType::AV1 => "video/AV1",
            MimeType::OPUS => "audio/opus",
            MimeType::G722 => "audio/G722",
            MimeType::PCMU => "audio/PCMU",
            MimeType::PCMA => "audio/PCMA",
        }
    }

    /// The text of this MIME type, as an owned string.
    pub fn to_string(&self) -> (text: String)
        ensures
            text@ == self.spec_text(),
    {
        self.as_str().to_owned()
    }

    /// The MIME type that a text names, if it names one. The match is
    /// exact, letter case included.
    pub open spec fn spec_from_text(text: Seq<char>) -> Option<MimeType> {
        if text == MimeType::H264.spec_text() {
            Some(MimeType::H264)
        } else if text == MimeType::VP8.spec_text() {
            Some(MimeType::VP8)
        } else if text == MimeType::VP9.spec_text() {
            Some(MimeType::VP9)
        } else if text == MimeType::AV1.spec_text() {
            Some(MimeType::AV1)
        } else if text == MimeType::OPUS.spec_text() {
            Some(MimeType::OPUS)
        } else if text == MimeType::G722.spec_text() {
            Some(MimeType::G722)
        } else if text == MimeType::PCMU.spec_text() {
            Some(MimeType::PCMU)
        } else if text == MimeType::PCMA.spec_text() {
            Some(MimeType::PCMA)
        } else {
            None
        }
    }

    /// Reads a MIME type from its text. The match is exact, letter case
    /// included; any other text is refused with `Error::InvalidMimeType`,
    /// which carries the text.
    pub fn from_string(s: &str) -> (parsed: Result<MimeType, Error>)
        ensures
            match parsed {
                Ok(mime) => MimeType::spec_from_text(s@) == Some(mime),
                Err(e) => {
                    &&& MimeType::spec_from_text(s@) is None
                    &&& e matches Error::InvalidMimeType { text }
                    &&& text@ == s@
                    &&& e.spec_message() == "invalid mime type: "@ + s@
                },
            },
    {
        if same_text(s, "video/H264") {
            Ok(MimeType::H264)
        } else if same_text(s, "video/VP8") {
            Ok(MimeType::VP8)
        } else if same_text(s, "video/VP9") {
            Ok(MimeType::VP9)
        } else if same_text(s, "video/AV1") {
            Ok(MimeType::AV1)
        } else if same_text(s, "audio/opus") {
            Ok(MimeType::OPUS)
        } else if same_text(s, "audio/G722") {
            Ok(MimeType::G722)
        } else if same_text(s, "audio/PCMU") {
            Ok(MimeType::PCMU)
        } else if same_text(s, "audio/PCMA") {
            Ok(MimeType::PCMA)
        } else {
            Err(Error::InvalidMimeType { text: s.to_owned() })
        }
    }
}

/// No two MIME types share their text, so the text identifies the type.
pub proof fn lemma_mime_text_identifies(a: MimeType, b: MimeType)
    requires
        a.spec_text() == b.spec_text(),
    ensures
        a == b,
{
    reveal_strlit("video/H264");
    reveal_strlit("video/VP8");
    reveal_strlit("video/VP9");
    reveal_strlit("video/AV1");
    reveal_strlit("audio/opus");
    reveal_strlit("audio/G722");
    reveal_strlit("audio/PCMU");
    reveal_strlit("audio/PCMA");
    if a != b {
        let x = a.spec_text();
        let y = b.spec_text();
        assert(x.len() == y.len());
        assert(x[0] == y[0]);
        assert(x[6] == y[6]);
        assert(x[7] == y[7]);
        assert(x[8] == y[8]);
        assert(x[9] == y[9] || x.len() == 9);
    }
}

/// Reading back the text of a MIME type gives that MIME type, and a text
/// that is read as a MIME type is the text of that type.
pub proof fn lemma_mime_round_trip(m: MimeType, text: Seq<char>)
    ensures
        MimeType::spec_from_text(m.spec_text()) == Some(m),
        MimeType::spec_from_text(text) == Some(m) ==> text == m.spec_text(),
{
    match MimeType::spec_from_text(m.spec_text()) {
        Some(found) => {
            lemma_mime_text_identifies(m, found);
        },
        None => {},
    }
}

} // verus!
