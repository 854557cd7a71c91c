//! The image catalogue: signed source indexes, where images land, and how
//! payloads are named, checked, and unpacked.
use vstd::prelude::*;
use crate::common::id::{Id, lemma_id_bits, lemma_uuid_text_injective, lemma_uuid_text_len, uuid_text};
use crate::text::{chars_of, concat, string_from};

pub mod types;
pub mod index;
pub mod import;
pub mod store;
pub mod transport;
pub mod runner;

verus! {

/// The dataset or zvol an image lives in.
pub open spec fn image_dataset(pool: Seq<char>, id: u128) -> Seq<char> {
    pool + "/images/"@ + uuid_text(id)
}

/// The dataset or zvol an image lives in.
pub fn dataset_for(pool: &str, id: Id) -> (r: String)
    ensures
        r@ == image_dataset(pool@, id.value()),
{
    let a = concat(chars_of(pool).as_slice(), chars_of("/images/").as_slice());
    let b = concat(a.as_slice(), chars_of(id.to_text().as_str()).as_slice());
    string_from(b.as_slice())
}

/// Two different images never share a dataset, nor an ISO file.
pub proof fn lemma_image_places_distinct(pool: Seq<char>, a: Id, b: Id)
    requires
        a != b,
    ensures
        image_dataset(pool, a.value()) != image_dataset(pool, b.value()),
        iso_path(pool, a.value()) != iso_path(pool, b.value()),
{
    reveal_strlit("/images/");
    reveal_strlit("/images/iso/");
    reveal_strlit("/");
    reveal_strlit(".iso");
    lemma_id_bits(a, b);
    lemma_uuid_text_len(a.value());
    lemma_uuid_text_len(b.value());
    let ta = uuid_text(a.value());
    let tb = uuid_text(b.value());
    if image_dataset(pool, a.value()) == image_dataset(pool, b.value()) {
        let k: int = pool.len() as int + 8;
        assert(image_dataset(pool, a.value()).skip(k) =~= ta);
        assert(image_dataset(pool, b.value()).skip(k) =~= tb);
        lemma_uuid_text_injective(a.value(), b.value());
    }
    if iso_path(pool, a.value()) == iso_path(pool, b.value()) {
        let k: int = pool.len() as int + 13;
        assert(iso_path(pool, a.value()).subrange(k, k + 36) =~= ta);
        assert(iso_path(pool, b.value()).subrange(k, k + 36) =~= tb);
        lemma_uuid_text_injective(a.value(), b.value());
    }
}

/// The file an ISO image is kept as.
pub open spec fn iso_path(pool: Seq<char>, id: u128) -> Seq<char> {
    "/"@ + pool + "/images/iso/"@ + uuid_text(id) + ".iso"@
}

/// The file an ISO image is kept as.
pub fn iso_path_for(pool: &str, id: Id) -> (r: String)
    ensures
        r@ == iso_path(pool@, id.value()),
{
    let a = concat(chars_of("/").as_slice(), chars_of(pool).as_slice());
    let b = concat(a.as_slice(), chars_of("/images/iso/").as_slice());
    let c = concat(b.as_slice(), chars_of(id.to_text().as_str()).as_slice());
    string_from(concat(c.as_slice(), chars_of(".iso").as_slice()).as_slice())
}

/// The snapshot clones are taken from.
pub const IMAGE_SNAPSHOT: &'static str = "image";

/// Cap on documents fetched whole (indexes and signatures).
pub const MAX_DOCUMENT_BYTES: usize = 8388608;

} // verus!
