//! The image builds of the build and up drivers: which services are built,
//! which earlier images a forced build removes, and the compressed build
//! context sent to the engine.
use crate::compose::Service;
use crate::text::view_all;
use std::io::Write;
use vstd::prelude::*;

verus! {

/// The gzip stream (default level, no timestamp) of `data`.
pub uninterp spec fn gzip_of(data: Seq<u8>) -> Seq<u8>;

/// Relies on flate2::write::GzEncoder over a `Vec` at the default compression
/// level: the gzip stream of `data`, whose header carries no timestamp. Writes
/// into a `Vec` do not fail.
#[verifier::external_body]
fn gzip(data: &[u8]) -> (r: Vec<u8>)
    ensures
        r@ == gzip_of(data@),
{
    let mut encoder = flate2::write::GzEncoder::new(Vec::new(), flate2::Compression::default());
    encoder.write_all(data).unwrap();
    encoder.finish().unwrap()
}

/// The build context sent to the engine: the tar archive of the working
/// directory, gzip-compressed.
pub fn compressed_context(archive: &Vec<u8>) -> (r: Vec<u8>)
    ensures
        r@ == gzip_of(archive@),
{
    gzip(archive.as_slice())
}

/// The services without an image of their own, in order: each is built from
/// the project's `Dockerfile` into an image tagged with its name.
pub open spec fn built_images(services: Seq<Service>) -> Seq<Seq<char>>
    decreases services.len(),
{
    if services.len() == 0 {
        Seq::empty()
    } else if services.last().config.image is None {
        built_images(services.drop_last()).push(services.last().name@)
    } else {
        built_images(services.drop_last())
    }
}

/// The images the build driver builds, by tag.
pub fn images_to_build(services: &Vec<Service>) -> (r: Vec<String>)
    ensures
        view_all(r@) == built_images(services@),
{
    let mut out: Vec<String> = Vec::new();
    let mut i: usize = 0;
    while i < services.len()
        invariant
            0 <= i <= services@.len(),
            view_all(out@) == built_images(services@.subrange(0, i as int)),
        decreases services.len() - i,
    {
        assert(services@.subrange(0, i + 1).drop_last() == services@.subrange(0, i as int));
        if services[i].config.image.is_none() {
            let ghost before = out@;
            out.push(services[i].name.clone());
            assert(view_all(out@) =~= view_all(before).push(services@[i as int].name@));
        }
        i = i + 1;
    }
    assert(services@.subrange(0, services@.len() as int) == services@);
    out
}

/// `{name}:latest`: the tag a built image carries.
pub open spec fn latest_tag_of(name: Seq<char>) -> Seq<char> {
    name + ":latest"@
}

/// Whether an image with the repository tags `tags` is the image `name` that
/// an earlier build produced, which a forced build removes first.
pub fn is_built_image(tags: &Vec<String>, name: &str) -> (r: bool)
    ensures
        r == view_all(tags@).contains(latest_tag_of(name@)),
{
    let mut tag = name.to_owned();
    tag.append(":latest");
    let mut i: usize = 0;
    while i < tags.len()
        invariant
            0 <= i <= tags@.len(),
            tag@ == latest_tag_of(name@),
            forall|j: int| 0 <= j < i ==> tags@[j]@ != tag@,
        decreases tags.len() - i,
    {
        if tags[i] == tag {
            assert(view_all(tags@)[i as int] == tag@);
            return true;
        }
        i = i + 1;
    }
    assert forall|j: int| 0 <= j < view_all(tags@).len() implies view_all(tags@)[j] != tag@ by {
        assert(view_all(tags@)[j] == tags@[j]@);
    }
    false
}

} // verus!
