//! Soulseek search data: the track searched for, the per-file results and
//! their attributes.
use std::collections::HashMap;
use vstd::prelude::*;

verus! {

/// Attribute codes attached to a shared file by the Soulseek protocol.
#[derive(Debug, Clone, Copy, PartialEq, Eq, Structural, Hash)]
pub enum FileAttribute {
    Bitrate,
    Duration,
    VariableBitRate,
    Encoder,
    SampleRate,
    BitDepth,
}

/// The protocol code of an attribute.
pub open spec fn attribute_code(a: FileAttribute) -> u8 {
    match a {
        FileAttribute::Bitrate => 0,
        FileAttribute::Duration => 1,
        FileAttribute::VariableBitRate => 2,
        FileAttribute::Encoder => 3,
        FileAttribute::SampleRate => 4,
        FileAttribute::BitDepth => 5,
    }
}

/// The attribute a protocol code stands for, if any.
pub open spec fn attribute_of_code(k: u8) -> Option<FileAttribute> {
    if k == 0 {
        Some(FileAttribute::Bitrate)
    } else if k == 1 {
        Some(FileAttribute::Duration)
    } else if k == 2 {
        Some(FileAttribute::VariableBitRate)
    } else if k == 3 {
        Some(FileAttribute::Encoder)
    } else if k == 4 {
        Some(FileAttribute::SampleRate)
    } else if k == 5 {
        Some(FileAttribute::BitDepth)
    } else {
        None
    }
}

/// A finite map from attribute to value: at most one value per attribute.
#[derive(Debug, Clone, PartialEq, Eq, Structural)]
pub struct FileAttributes {
    bitrate: Option<u32>,
    duration: Option<u32>,
    variable_bit_rate: Option<u32>,
    encoder: Option<u32>,
    sample_rate: Option<u32>,
    bit_depth: Option<u32>,
}

impl FileAttributes {
    /// The value stored for `a`.
    pub closed spec fn value_of(&self, a: FileAttribute) -> Option<u32> {
        match a {
            FileAttribute::Bitrate => self.bitrate,
            FileAttribute::Duration => self.duration,
            FileAttribute::VariableBitRate => self.variable_bit_rate,
            FileAttribute::Encoder => self.encoder,
            FileAttribute::SampleRate => self.sample_rate,
            FileAttribute::BitDepth => self.bit_depth,
        }
    }

    /// No attribute has a value.
    pub open spec fn is_empty_spec(&self) -> bool {
        forall|a: FileAttribute| self.value_of(a) is None
    }

    /// An empty attribute map.
    pub fn new() -> (r: FileAttributes)
        ensures
            r.is_empty_spec(),
    {
        FileAttributes {
            bitrate: None,
            duration: None,
            variable_bit_rate: None,
            encoder: None,
            sample_rate: None,
            bit_depth: None,
        }
    }

    /// The value stored for `a`.
    pub fn get(&self, a: FileAttribute) -> (r: Option<u32>)
        ensures
            r == self.value_of(a),
    {
        match a {
            FileAttribute::Bitrate => self.bitrate,
            FileAttribute::Duration => self.duration,
            FileAttribute::VariableBitRate => self.variable_bit_rate,
            FileAttribute::Encoder => self.encoder,
            FileAttribute::SampleRate => self.sample_rate,
            FileAttribute::BitDepth => self.bit_depth,
        }
    }

    /// Stores `v` for `a`, replacing any previous value.
    pub fn insert(&mut self, a: FileAttribute, v: u32)
        ensures
            forall|b: FileAttribute|
                final(self).value_of(b) == if b == a {
                    Some(v)
                } else {
                    old(self).value_of(b)
                },
    {
        match a {
            FileAttribute::Bitrate => self.bitrate = Some(v),
            FileAttribute::Duration => self.duration = Some(v),
            FileAttribute::VariableBitRate => self.variable_bit_rate = Some(v),
            FileAttribute::Encoder => self.encoder = Some(v),
            FileAttribute::SampleRate => self.sample_rate = Some(v),
            FileAttribute::BitDepth => self.bit_depth = Some(v),
        }
    }

    /// Whether no attribute has a value.
    pub fn is_empty(&self) -> (b: bool)
        ensures
            b == self.is_empty_spec(),
    {
        let b = self.bitrate.is_none() && self.duration.is_none()
            && self.variable_bit_rate.is_none() && self.encoder.is_none()
            && self.sample_rate.is_none() && self.bit_depth.is_none();
        proof {
            if !b {
                if self.bitrate.is_some() {
                    assert(self.value_of(FileAttribute::Bitrate) is Some);
                } else if self.duration.is_some() {
                    assert(self.value_of(FileAttribute::Duration) is Some);
                } else if self.variable_bit_rate.is_some() {
                    assert(self.value_of(FileAttribute::VariableBitRate) is Some);
                } else if self.encoder.is_some() {
                    assert(self.value_of(FileAttribute::Encoder) is Some);
                } else if self.sample_rate.is_some() {
                    assert(self.value_of(FileAttribute::SampleRate) is Some);
                } else {
                    assert(self.value_of(FileAttribute::BitDepth) is Some);
                }
            }
        }
        b
    }
}

/// A track to search for.
#[derive(Debug, Clone)]
pub struct Track {
    pub title: String,
    pub album: String,
    pub artists: Vec<String>,
    /// Optional user-provided length, in seconds.
    pub length: Option<u32>,
}

/// Connection and search settings; every `None` falls back to a default.
#[derive(Debug, Clone)]
pub struct SearchConfig {
    pub username: String,
    pub password: String,
    /// Default 2.
    pub concurrency: Option<usize>,
    /// Default 34.
    pub searches_per_time: Option<u32>,
    /// Default 220.
    pub renew_time_secs: Option<u32>,
    /// Default 8000.
    pub max_search_time_ms: Option<u64>,
    /// Default false.
    pub remove_special_chars: Option<bool>,
}

/// One file offered by one user, with the user's transfer information.
/// `avg_speed` is the user's upload speed as reported by the network
/// (an integer count of bytes per second).
#[derive(Debug, Clone)]
pub struct SingleFileResult {
    pub username: String,
    pub token: String,
    pub filename: String,
    pub size: u64,
    pub slots_free: bool,
    pub avg_speed: u64,
    pub queue_length: u32,
    pub attrs: FileAttributes,
}

/// A user's answer to a search: the files it shares that match.
#[derive(Debug, Clone)]
pub struct FileSearchResponse {
    pub username: String,
    pub token: String,
    pub files: Vec<FileInfo>,
    pub slots_free: bool,
    pub avg_speed: u64,
    pub queue_length: u32,
}

/// A shared file with its raw attribute codes.
#[derive(Debug, Clone)]
pub struct FileInfo {
    pub filename: String,
    pub size: u64,
    pub attrs: HashMap<u8, u32>,
}

} // verus!
