//! Image wire types: types and import states.
use vstd::prelude::*;
use crate::text::{chars_of, is};

verus! {

/// What an image is used for; fixes its on-disk form.
#[derive(Debug, Clone, Copy, PartialEq, Eq, Structural, Hash)]
pub enum ImageType {
    /// Native zone root as a ZFS stream.
    ZoneNative,
    /// lx zone root as a ZFS stream.
    ZoneLx,
    /// Raw VM disk image, written to a zvol.
    VmRaw,
    /// Installer ISO, kept as a file.
    VmIso,
}

/// The name of an image type.
pub open spec fn image_type_name(t: ImageType) -> Seq<char> {
    match t {
        ImageType::ZoneNative => "zone-native"@,
        ImageType::ZoneLx => "zone-lx"@,
        ImageType::VmRaw => "vm-raw"@,
        ImageType::VmIso => "vm-iso"@,
    }
}

impl ImageType {
    /// As the API spells it.
    pub fn as_str(self) -> (r: &'static str)
        ensures
            r@ == image_type_name(self),
    {
        match self {
            ImageType::ZoneNative => "zone-native",
            ImageType::ZoneLx => "zone-lx",
            ImageType::VmRaw => "vm-raw",
            ImageType::VmIso => "vm-iso",
        }
    }

    /// Whether the image is a dataset or zvol that zones and VMs clone.
    pub fn is_cloneable(self) -> (r: bool)
        ensures
            r == (self != ImageType::VmIso),
    {
        !matches!(self, ImageType::VmIso)
    }
}

/// Where an import is.
#[derive(Debug, Clone, Copy, PartialEq, Eq, Structural)]
pub enum ImageState {
    /// Queued.
    Pending,
    /// Fetching the payload.
    Downloading,
    /// Checking the hash.
    Verifying,
    /// Receiving into ZFS or writing the zvol.
    Importing,
    /// Usable.
    Ready,
    /// Import failed.
    Failed,
}

/// The stored name of a state.
pub open spec fn image_state_name(s: ImageState) -> Seq<char> {
    match s {
        ImageState::Pending => "pending"@,
        ImageState::Downloading => "downloading"@,
        ImageState::Verifying => "verifying"@,
        ImageState::Importing => "importing"@,
        ImageState::Ready => "ready"@,
        ImageState::Failed => "failed"@,
    }
}

/// The state a stored name names.
pub open spec fn image_state_of(s: Seq<char>) -> Option<ImageState> {
    if s == "pending"@ {
        Some(ImageState::Pending)
    } else if s == "downloading"@ {
        Some(ImageState::Downloading)
    } else if s == "verifying"@ {
        Some(ImageState::Verifying)
    } else if s == "importing"@ {
        Some(ImageState::Importing)
    } else if s == "ready"@ {
        Some(ImageState::Ready)
    } else if s == "failed"@ {
        Some(ImageState::Failed)
    } else {
        None
    }
}

impl ImageState {
    /// As the API spells it.
    pub fn as_str(self) -> (r: &'static str)
        ensures
            r@ == image_state_name(self),
    {
        match self {
            ImageState::Pending => "pending",
            ImageState::Downloading => "downloading",
            ImageState::Verifying => "verifying",
            ImageState::Importing => "importing",
            ImageState::Ready => "ready",
            ImageState::Failed => "failed",
        }
    }

    /// From the stored form.
    pub fn parse(s: &str) -> (r: Option<ImageState>)
        ensures
            r == image_state_of(s@),
    {
        let c = chars_of(s);
        if is(c.as_slice(), "pending") {
            Some(ImageState::Pending)
        } else if is(c.as_slice(), "downloading") {
            Some(ImageState::Downloading)
        } else if is(c.as_slice(), "verifying") {
            Some(ImageState::Verifying)
        } else if is(c.as_slice(), "importing") {
            Some(ImageState::Importing)
        } else if is(c.as_slice(), "ready") {
            Some(ImageState::Ready)
        } else if is(c.as_slice(), "failed") {
            Some(ImageState::Failed)
        } else {
            None
        }
    }
}

/// Stored state names read back as their states.
pub proof fn lemma_image_state_round_trip(s: ImageState)
    ensures
        image_state_of(image_state_name(s)) == Some(s),
{
    reveal_strlit("pending");
    reveal_strlit("downloading");
    reveal_strlit("verifying");
    reveal_strlit("importing");
    reveal_strlit("ready");
    reveal_strlit("failed");
    assert("pending"@.len() == 7);
    assert("downloading"@.len() == 11);
    assert("verifying"@.len() == 9);
    assert("importing"@.len() == 9);
    assert("ready"@.len() == 5);
    assert("failed"@.len() == 6);
    assert("verifying"@[0] != "importing"@[0]);
}

/// `POST /images/sources`.
#[derive(Debug, Clone, PartialEq, Eq)]
pub struct ImageSourceCreate {
    /// Index URL.
    pub url: String,
    /// Base64 Ed25519 public key.
    pub public_key: String,
}

/// `PATCH /images/sources/{id}`.
#[derive(Debug, Clone, Default, PartialEq, Eq)]
pub struct ImageSourceUpdate {
    /// Enabled.
    pub enabled: Option<bool>,
}

} // verus!
