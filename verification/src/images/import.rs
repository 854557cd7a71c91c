//! One import, as decisions: whether a download is the published payload,
//! what landing it takes for each kind of image, what it produces, what a
//! failure leaves to clean up, and the ZFS commands the store runs. The
//! caller performs each step and hands back what happened.
use vstd::prelude::*;
use crate::common::id::Id;
use crate::common::image::ImageType;
use crate::images::types::{Compression, ImageError, compression_of};
use crate::images::{dataset_for, image_dataset, iso_path, iso_path_for, IMAGE_SNAPSHOT};
use crate::text::{chars_of, concat, lower, lowered, same, string_from};

verus! {

/// What to import.
#[derive(Debug, Clone)]
pub struct ImportPlan {
    /// The image id, which names the dataset or file.
    pub id: Id,
    /// Type.
    pub image_type: ImageType,
    /// Payload URL.
    pub url: String,
    /// Expected hex sha256.
    pub sha256: String,
    /// Expected size, for progress and zvol sizing.
    pub size: u64,
    /// Pool.
    pub pool: String,
}

/// What an import produced.
#[derive(Debug, Clone)]
pub struct Outcome {
    /// Dataset or zvol, with an `@image` snapshot.
    pub dataset: Option<String>,
    /// File path (ISO).
    pub path: Option<String>,
}

/// One thing the store is asked to do.
#[derive(Debug, Clone)]
pub enum StoreStep {
    /// Receive the staged stream into a dataset.
    Receive { dataset: String, compression: Compression },
    /// Create a zvol of `size` bytes and write the staged image into it.
    WriteVolume { zvol: String, compression: Compression, size: u64 },
    /// Take the `@image` snapshot of a dataset or zvol.
    Snapshot { dataset: String },
    /// Move the staged file to where it is kept.
    KeepFile { dest: String },
    /// Destroy a dataset or zvol and its snapshots.
    Destroy { dataset: String },
    /// Remove a file; one already gone is no error.
    RemoveFile { path: String },
}

/// One mebibyte.
pub const MIB: u64 = 1048576;

/// The zvol size for a raw image: the published size rounded up to a
/// mebibyte, and at least one.
pub open spec fn raw_volume_size(size: nat) -> nat {
    let blocks = if size % (MIB as nat) == 0 { size / (MIB as nat) } else { size / (MIB as nat) + 1 };
    (if blocks == 0 { 1 } else { blocks }) * (MIB as nat)
}

/// The zvol size for a raw image: the published size rounded up to a
/// mebibyte, since a compressed payload's size is the compressed one and
/// a raw image is at least that large. The size must leave room to round
/// up within 64 bits.
pub fn raw_size(plan: &ImportPlan) -> (r: u64)
    requires
        plan.size <= u64::MAX - (MIB - 1),
    ensures
        r == raw_volume_size(plan.size as nat),
{
    let q: u64 = plan.size / MIB;
    let blocks: u64 = if plan.size % MIB == 0 { q } else { q + 1 };
    let blocks: u64 = if blocks == 0 { 1 } else { blocks };
    assert(blocks <= 17592186044415);
    blocks * MIB
}

/// The snapshot name every clone starts from.
pub open spec fn clone_source_of(dataset: Seq<char>) -> Seq<char> {
    dataset + "@"@ + IMAGE_SNAPSHOT@
}

/// The snapshot name every clone starts from.
pub fn clone_source(dataset: &str) -> (r: String)
    ensures
        r@ == clone_source_of(dataset@),
{
    let a = concat(chars_of(dataset).as_slice(), chars_of("@").as_slice());
    string_from(concat(a.as_slice(), chars_of(IMAGE_SNAPSHOT).as_slice()).as_slice())
}

/// Whether two texts are equal ignoring ASCII case.
pub open spec fn same_ignoring_case(a: Seq<char>, b: Seq<char>) -> bool {
    lower(a) == lower(b)
}

/// Whether a downloaded payload is the published one: its sha256 must
/// equal the plan's, ignoring case. A mismatch reports the published hash
/// in lower case beside the computed one.
pub fn check_download(plan: &ImportPlan, actual_sha256: &str) -> (r: Result<(), ImageError>)
    ensures
        r is Ok <==> same_ignoring_case(actual_sha256@, plan.sha256@),
        r matches Err(e) ==> e matches ImageError::Verify { expected, actual }
            && expected@ == lower(plan.sha256@) && actual@ == actual_sha256@,
{
    let expected = lowered(chars_of(plan.sha256.as_str()).as_slice());
    let got = lowered(chars_of(actual_sha256).as_slice());
    if same(got.as_slice(), expected.as_slice()) {
        Ok(())
    } else {
        Err(ImageError::Verify { expected: string_from(expected.as_slice()), actual: actual_sha256.to_owned() })
    }
}

/// The dataset, zvol, or file an image of a type occupies.
pub open spec fn image_place(image_type: ImageType, pool: Seq<char>, id: u128) -> Seq<char> {
    if image_type == ImageType::VmIso {
        iso_path(pool, id)
    } else {
        image_dataset(pool, id)
    }
}

/// A store step taken by its texts.
pub open spec fn step_view(s: StoreStep) -> (int, Seq<char>, Compression, u64) {
    match s {
        StoreStep::Receive { dataset, compression } => (0, dataset@, compression, 0),
        StoreStep::WriteVolume { zvol, compression, size } => (1, zvol@, compression, size),
        StoreStep::Snapshot { dataset } => (2, dataset@, Compression::Plain, 0),
        StoreStep::KeepFile { dest } => (3, dest@, Compression::Plain, 0),
        StoreStep::Destroy { dataset } => (4, dataset@, Compression::Plain, 0),
        StoreStep::RemoveFile { path } => (5, path@, Compression::Plain, 0),
    }
}

/// Store steps taken by their texts.
pub open spec fn steps_view(s: Seq<StoreStep>) -> Seq<(int, Seq<char>, Compression, u64)> {
    s.map_values(|x: StoreStep| step_view(x))
}

/// What landing a verified payload asks of the store, by image type, as
/// store steps taken by their texts.
pub open spec fn landing_steps(plan: ImportPlan) -> Seq<(int, Seq<char>, Compression, u64)> {
    let place = image_place(plan.image_type, plan.pool@, plan.id.value());
    let compression = compression_of(plan.url@);
    match plan.image_type {
        ImageType::ZoneNative | ImageType::ZoneLx => seq![
            (0, place, compression, 0u64),
            (2, place, Compression::Plain, 0u64),
        ],
        ImageType::VmRaw => seq![
            (1, place, compression, raw_volume_size(plan.size as nat) as u64),
            (2, place, Compression::Plain, 0u64),
        ],
        ImageType::VmIso => seq![(3, place, Compression::Plain, 0u64)],
    }
}

/// The steps that land a verified payload: a zone image is received into
/// its dataset and snapshotted, a raw image written to a zvol of
/// [`raw_size`] and snapshotted, an ISO kept as a file. A raw image's size
/// must leave room to round up within 64 bits.
pub fn land_steps(plan: &ImportPlan) -> (r: Vec<StoreStep>)
    requires
        plan.image_type == ImageType::VmRaw ==> plan.size <= u64::MAX - (MIB - 1),
    ensures
        steps_view(r@) == landing_steps(*plan),
{
    let compression = Compression::from_url(plan.url.as_str());
    let mut steps: Vec<StoreStep> = Vec::new();
    match plan.image_type {
        ImageType::ZoneNative | ImageType::ZoneLx => {
            let dataset = dataset_for(plan.pool.as_str(), plan.id);
            steps.push(StoreStep::Receive { dataset: dataset.clone(), compression });
            steps.push(StoreStep::Snapshot { dataset });
        },
        ImageType::VmRaw => {
            let zvol = dataset_for(plan.pool.as_str(), plan.id);
            let size = raw_size(plan);
            steps.push(StoreStep::WriteVolume { zvol: zvol.clone(), compression, size });
            steps.push(StoreStep::Snapshot { dataset: zvol });
        },
        ImageType::VmIso => {
            steps.push(StoreStep::KeepFile { dest: iso_path_for(plan.pool.as_str(), plan.id) });
        },
    }
    assert(steps_view(steps@) =~= landing_steps(*plan));
    steps
}

/// What an import of a plan produces once landed: the dataset or zvol,
/// or the kept file.
pub fn outcome_of(plan: &ImportPlan) -> (r: Outcome)
    ensures
        plan.image_type == ImageType::VmIso ==> r.dataset is None,
        plan.image_type == ImageType::VmIso ==> (r.path matches Some(p)
            && p@ == iso_path(plan.pool@, plan.id.value())),
        plan.image_type != ImageType::VmIso ==> r.path is None,
        plan.image_type != ImageType::VmIso ==> (r.dataset matches Some(d)
            && d@ == image_dataset(plan.pool@, plan.id.value())),
{
    match plan.image_type {
        ImageType::VmIso => Outcome { dataset: None, path: Some(iso_path_for(plan.pool.as_str(), plan.id)) },
        _ => Outcome { dataset: Some(dataset_for(plan.pool.as_str(), plan.id)), path: None },
    }
}

/// What a failed landing leaves to destroy: the dataset or zvol of a
/// cloneable image; an ISO leaves nothing.
pub fn cleanup_after_failure(plan: &ImportPlan) -> (r: Option<StoreStep>)
    ensures
        plan.image_type == ImageType::VmIso <==> r is None,
        r matches Some(s) ==> step_view(s) == (4int, image_dataset(plan.pool@, plan.id.value()), Compression::Plain, 0u64),
{
    if plan.image_type.is_cloneable() {
        Some(StoreStep::Destroy { dataset: dataset_for(plan.pool.as_str(), plan.id) })
    } else {
        None
    }
}

/// Removing an image: destroy its dataset or zvol, or remove its file.
pub fn removal(image_type: ImageType, pool: &str, id: Id) -> (r: StoreStep)
    ensures
        step_view(r) == (if image_type == ImageType::VmIso {
            (5int, iso_path(pool@, id.value()), Compression::Plain, 0u64)
        } else {
            (4int, image_dataset(pool@, id.value()), Compression::Plain, 0u64)
        }),
{
    if image_type.is_cloneable() {
        StoreStep::Destroy { dataset: dataset_for(pool, id) }
    } else {
        StoreStep::RemoveFile { path: iso_path_for(pool, id) }
    }
}

} // verus!
