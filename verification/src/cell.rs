//! The shared state cell and the analysis dispatch decisions.
//!
//! One mutually-exclusive cell holds whether an analysis is in flight,
//! the latest captured image bytes, the latest result text and whether a
//! rendered texture is current.  Background tasks publish into it; the
//! render loop polls it.  Locking lives outside the library: callers run
//! these transitions while holding their lock, so each function is one
//! critical section.

use vstd::prelude::*;
use vstd::string::*;

use crate::text::{contains_sub, push_all, spec_contains};

verus! {

/// The data protected by the single shared lock.
pub struct StateCell {
    pub processing: bool,
    pub ai_response: Vec<u8>,
    pub image_data: Vec<u8>,
    pub texture_loaded: bool,
}

/// Result text when analysis is requested with no captured image.
pub open spec fn msg_capture_first() -> Seq<u8> {
    "Please capture an image first.".spec_bytes()
}

/// Result text when a prompt analysis is requested with no captured image.
pub open spec fn msg_capture_for_prompt() -> Seq<u8> {
    "Please capture an image for prompt analysis.".spec_bytes()
}

/// Placeholder shown while a default-prompt analysis is in flight.
pub open spec fn msg_processing() -> Seq<u8> {
    "Processing image...".spec_bytes()
}

/// Placeholder shown while a custom-prompt analysis is in flight.
pub open spec fn msg_processing_prompt() -> Seq<u8> {
    "Processing with your prompt...".spec_bytes()
}

pub open spec fn msg_failed_prefix() -> Seq<u8> {
    "AI processing failed: ".spec_bytes()
}

pub open spec fn cue_not_found() -> Seq<u8> {
    "not found".spec_bytes()
}

pub open spec fn cue_not_available() -> Seq<u8> {
    "not available".spec_bytes()
}

pub open spec fn cue_conn_refused() -> Seq<u8> {
    "connection refused".spec_bytes()
}

pub open spec fn msg_pull_prefix() -> Seq<u8> {
    "\n\nTo fix: ollama pull ".spec_bytes()
}

/// The remediation hint that tells the user to start the service.
pub open spec fn msg_serve_hint() -> Seq<u8> {
    "\n\nEnsure Ollama is running: ollama serve".spec_bytes()
}

pub open spec fn msg_init_failed_prefix() -> Seq<u8> {
    "Failed to init Ollama model: ".spec_bytes()
}

pub open spec fn msg_init_failed_suffix() -> Seq<u8> {
    "\n\nIs Ollama running? Is model pulled?".spec_bytes()
}

/// The result text published for a failed analysis: the failure
/// description, prefixed, and a remediation hint chosen by matching the
/// description against known causes — a missing model suggests pulling
/// it, an unavailable or refused connection suggests starting the
/// service.
pub open spec fn spec_failure_text(desc: Seq<u8>, model: Seq<u8>) -> Seq<u8> {
    let base = msg_failed_prefix() + desc;
    if spec_contains(desc, cue_not_found()) {
        base + msg_pull_prefix() + model
    } else if spec_contains(desc, cue_not_available()) || spec_contains(desc, cue_conn_refused()) {
        base + msg_serve_hint()
    } else {
        base
    }
}

impl StateCell {
    /// An idle cell: nothing captured, nothing in flight, no text.
    pub fn new() -> (r: Self)
        ensures
            !r.processing,
            r.ai_response@.len() == 0,
            r.image_data@.len() == 0,
            !r.texture_loaded,
    {
        StateCell {
            processing: false,
            ai_response: Vec::new(),
            image_data: Vec::new(),
            texture_loaded: false,
        }
    }

    /// Publish freshly captured image bytes; the previously rendered
    /// texture is invalidated so the view recomputes it lazily.
    pub fn publish_capture(&mut self, png: Vec<u8>)
        ensures
            final(self).image_data@ == png@,
            !final(self).texture_loaded,
            final(self).processing == old(self).processing,
            final(self).ai_response == old(self).ai_response,
    {
        self.image_data = png;
        self.texture_loaded = false;
    }

    /// Drop the captured image and the result text.
    pub fn clear_image_and_response(&mut self)
        ensures
            final(self).image_data@.len() == 0,
            final(self).ai_response@.len() == 0,
            !final(self).texture_loaded,
            final(self).processing == old(self).processing,
    {
        self.image_data.clear();
        self.ai_response.clear();
        self.texture_loaded = false;
    }

    /// The view may offer the analyze control: an image is captured and
    /// nothing is in flight.  Suppressing the control while an analysis
    /// runs is the only gate on concurrent analyses.
    pub fn can_offer_analysis(&self) -> (r: bool)
        ensures
            r == (!self.processing && self.image_data@.len() > 0),
    {
        !self.processing && self.image_data.len() > 0
    }

    /// The render loop must (re)build the texture: image bytes exist but
    /// no texture is current.
    pub fn needs_texture(&self) -> (r: bool)
        ensures
            r == (!self.texture_loaded && self.image_data@.len() > 0),
    {
        !self.texture_loaded && self.image_data.len() > 0
    }

    /// Record that the view has rebuilt the texture.
    pub fn set_texture_loaded(&mut self)
        ensures
            final(self).texture_loaded,
            final(self).processing == old(self).processing,
            final(self).ai_response == old(self).ai_response,
            final(self).image_data == old(self).image_data,
    {
        self.texture_loaded = true;
    }

    /// Start a default-prompt analysis.  With no captured image this
    /// publishes the fixed capture-first message and hands back nothing,
    /// so no background task is spawned; otherwise it marks the cell
    /// processing, publishes the in-flight placeholder and hands back a
    /// copy of the image bytes for the task.
    pub fn analyze_begin(&mut self) -> (r: Option<Vec<u8>>)
        ensures
            old(self).image_data@.len() == 0 ==> {
                &&& r is None
                &&& final(self).ai_response@ == msg_capture_first()
                &&& final(self).processing == old(self).processing
            },
            old(self).image_data@.len() > 0 ==> {
                &&& r matches Some(v) && v@ == old(self).image_data@
                &&& final(self).processing
                &&& final(self).ai_response@ == msg_processing()
            },
            final(self).image_data == old(self).image_data,
            final(self).texture_loaded == old(self).texture_loaded,
    {
        if self.image_data.len() == 0 {
            self.ai_response = "Please capture an image first.".as_bytes_vec();
            None
        } else {
            let copy = self.image_data.clone();
            self.processing = true;
            self.ai_response = "Processing image...".as_bytes_vec();
            Some(copy)
        }
    }

    /// Start a custom-prompt analysis; as `analyze_begin`, with the
    /// prompt-flavoured messages.
    pub fn analyze_with_prompt_begin(&mut self) -> (r: Option<Vec<u8>>)
        ensures
            old(self).image_data@.len() == 0 ==> {
                &&& r is None
                &&& final(self).ai_response@ == msg_capture_for_prompt()
                &&& final(self).processing == old(self).processing
            },
            old(self).image_data@.len() > 0 ==> {
                &&& r matches Some(v) && v@ == old(self).image_data@
                &&& final(self).processing
                &&& final(self).ai_response@ == msg_processing_prompt()
            },
            final(self).image_data == old(self).image_data,
            final(self).texture_loaded == old(self).texture_loaded,
    {
        if self.image_data.len() == 0 {
            self.ai_response = "Please capture an image for prompt analysis.".as_bytes_vec();
            None
        } else {
            let copy = self.image_data.clone();
            self.processing = true;
            self.ai_response = "Processing with your prompt...".as_bytes_vec();
            Some(copy)
        }
    }

    /// Finish an analysis: publish the response text on success, or the
    /// classified failure text on failure; either way the in-flight flag
    /// clears.
    pub fn analyze_finish(&mut self, outcome: Result<Vec<u8>, Vec<u8>>, model: &[u8])
        ensures
            !final(self).processing,
            match outcome {
                Ok(text) => final(self).ai_response@ == text@,
                Err(desc) => final(self).ai_response@ == spec_failure_text(desc@, model@),
            },
            final(self).image_data == old(self).image_data,
            final(self).texture_loaded == old(self).texture_loaded,
    {
        match outcome {
            Ok(text) => {
                self.ai_response = text;
            },
            Err(desc) => {
                let mut resp: Vec<u8> = "AI processing failed: ".as_bytes_vec();
                push_all(&mut resp, desc.as_slice());
                if contains_sub(desc.as_slice(), "not found".as_bytes()) {
                    push_all(&mut resp, "\n\nTo fix: ollama pull ".as_bytes());
                    push_all(&mut resp, model);
                } else if contains_sub(desc.as_slice(), "not available".as_bytes()) || contains_sub(
                    desc.as_slice(),
                    "connection refused".as_bytes(),
                ) {
                    push_all(&mut resp, "\n\nEnsure Ollama is running: ollama serve".as_bytes());
                }
                self.ai_response = resp;
            },
        }
        self.processing = false;
    }

    /// Publish the failure text for a model that could not even be set
    /// up, and clear the in-flight flag.
    pub fn analyze_init_failed(&mut self, desc: &[u8])
        ensures
            !final(self).processing,
            final(self).ai_response@ == msg_init_failed_prefix() + desc@
                + msg_init_failed_suffix(),
            final(self).image_data == old(self).image_data,
            final(self).texture_loaded == old(self).texture_loaded,
    {
        let mut resp: Vec<u8> = "Failed to init Ollama model: ".as_bytes_vec();
        push_all(&mut resp, desc);
        push_all(&mut resp, "\n\nIs Ollama running? Is model pulled?".as_bytes());
        self.ai_response = resp;
        self.processing = false;
    }
}

/// Any text with the serve hint appended contains the serve hint.
proof fn lemma_contains_own_suffix(a: Seq<u8>, b: Seq<u8>)
    ensures
        spec_contains(a + b, b),
{
    let h = a + b;
    assert(h.subrange(a.len() as int, (a.len() + b.len()) as int) =~= b);
}

/// An analysis that fails because the service is unreachable — its
/// failure description names a refused connection and no missing model —
/// ends with the in-flight flag cleared and a result text that carries
/// the hint to start the service.  (A description that also says
/// `not found` takes the pull hint instead.)
pub proof fn lemma_unreachable_gets_serve_hint(desc: Seq<u8>, model: Seq<u8>)
    requires
        spec_contains(desc, cue_conn_refused()),
        !spec_contains(desc, cue_not_found()),
    ensures
        spec_contains(spec_failure_text(desc, model), msg_serve_hint()),
{
    lemma_contains_own_suffix(msg_failed_prefix() + desc, msg_serve_hint());
}

} // verus!
