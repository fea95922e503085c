//! Image cache management: the image listing of the container runtime,
//! which images belong to agentkernel, and which may be pruned.

use vstd::prelude::*;
use crate::text::{
    contains_str, has_prefix, has_substring, occurs_at, lines, lines_of, push_dec_u64, dec_repr, split_char,
    split_on, starts_with, str_eq, views,
};

verus! {

broadcast use vstd::string::group_string_axioms;

/// Info about a Docker image.
#[derive(Debug)]
pub struct ImageInfo {
    pub repository: String,
    pub tag: String,
    pub image_id: String,
    pub size: String,
}

/// The plain values of an image: repository, tag, ID and size.
pub open spec fn image_view(i: ImageInfo) -> (Seq<char>, Seq<char>, Seq<char>, Seq<char>) {
    (i.repository@, i.tag@, i.image_id@, i.size@)
}

/// The views of a list of images.
pub open spec fn image_views(v: Seq<ImageInfo>) -> Seq<(Seq<char>, Seq<char>, Seq<char>, Seq<char>)> {
    v.map_values(|i: ImageInfo| image_view(i))
}

/// The name an image is referred to by: the image ID when untagged,
/// `repository:tag` otherwise.
pub open spec fn full_name_of(repository: Seq<char>, tag: Seq<char>, image_id: Seq<char>) -> Seq<char> {
    if tag == "<none>"@ {
        image_id
    } else {
        repository + ":"@ + tag
    }
}

impl ImageInfo {
    /// The name the image is referred to by.
    pub fn full_name(&self) -> (r: String)
        ensures
            r@ == full_name_of(self.repository@, self.tag@, self.image_id@),
    {
        if str_eq(self.tag.as_str(), "<none>") {
            self.image_id.clone()
        } else {
            let mut r = self.repository.clone();
            r.append(":");
            r.append(self.tag.as_str());
            r
        }
    }
}

/// The image described by one listing line `repo\ttag\tid\tsize[\t...]`.
pub open spec fn listing_line_image(line: Seq<char>) -> Option<(Seq<char>, Seq<char>, Seq<char>, Seq<char>)> {
    let p = split_on(line, '\t');
    if p.len() >= 4 {
        Some((p[0], p[1], p[2], p[3]))
    } else {
        None
    }
}

/// The images of a listing: one per non-empty line with at least four
/// tab-separated fields, in order.
pub open spec fn listing_images(stdout: Seq<char>) -> Seq<(Seq<char>, Seq<char>, Seq<char>, Seq<char>)> {
    lines_of(stdout).filter_map(|line: Seq<char>| if line.len() > 0 { listing_line_image(line) } else { None })
}

/// Images related to agentkernel: the repository starts with or contains
/// `agentkernel`, or the tag starts with it.
pub open spec fn agentkernel_related(i: (Seq<char>, Seq<char>, Seq<char>, Seq<char>)) -> bool {
    has_prefix(i.0, "agentkernel"@) || has_substring(i.0, "agentkernel"@) || has_prefix(i.1, "agentkernel"@)
}

/// The images a listing yields: all of them, or only the agentkernel ones.
pub open spec fn listed_images(stdout: Seq<char>, all: bool) -> Seq<(Seq<char>, Seq<char>, Seq<char>, Seq<char>)> {
    if all {
        listing_images(stdout)
    } else {
        listing_images(stdout).filter(|i: (Seq<char>, Seq<char>, Seq<char>, Seq<char>)| agentkernel_related(i))
    }
}

/// An image of the listing is kept by the agentkernel filter exactly when
/// its repository contains `agentkernel` anywhere or its tag starts with it:
/// the filtered listing is the full listing, in order, restricted to those
/// images.
pub proof fn lemma_filtered_listing_keeps_agentkernel_images(stdout: Seq<char>)
    ensures
        listed_images(stdout, true) == listing_images(stdout),
        listed_images(stdout, false) == listing_images(stdout).filter(
            |i: (Seq<char>, Seq<char>, Seq<char>, Seq<char>)|
                has_substring(i.0, "agentkernel"@) || has_prefix(i.1, "agentkernel"@),
        ),
{
    let p1 = |i: (Seq<char>, Seq<char>, Seq<char>, Seq<char>)| agentkernel_related(i);
    let p2 = |i: (Seq<char>, Seq<char>, Seq<char>, Seq<char>)|
        has_substring(i.0, "agentkernel"@) || has_prefix(i.1, "agentkernel"@);
    assert forall|i: (Seq<char>, Seq<char>, Seq<char>, Seq<char>)| #[trigger] p1(i) == p2(i) by {
        if has_prefix(i.0, "agentkernel"@) {
            assert(occurs_at(i.0, "agentkernel"@, 0));
        }
    }
    assert(p1 =~= p2);
}

/// Whether an image is related to agentkernel.
pub fn is_agentkernel_related(img: &ImageInfo) -> (r: bool)
    ensures
        r == agentkernel_related(image_view(*img)),
{
    starts_with(img.repository.as_str(), "agentkernel") || contains_str(
        img.repository.as_str(),
        "agentkernel",
    ) || starts_with(img.tag.as_str(), "agentkernel")
}

/// The images of `docker images --format "{{.Repository}}\t{{.Tag}}\t{{.ID}}\t{{.Size}}"`
/// output; unless `all`, only those related to agentkernel.
pub fn images_from_listing(stdout: &str, all: bool) -> (r: Vec<ImageInfo>)
    ensures
        image_views(r@) == listed_images(stdout@, all),
{
    let ls = lines(stdout);
    let n = ls.len();
    let mut parsed: Vec<ImageInfo> = Vec::new();
    let ghost f = |line: Seq<char>| if line.len() > 0 { listing_line_image(line) } else { None };
    for i in 0..n
        invariant
            n == ls@.len(),
            views(ls@) == lines_of(stdout@),
            f == (|line: Seq<char>| if line.len() > 0 { listing_line_image(line) } else { None }),
            image_views(parsed@) == views(ls@).take(i as int).filter_map(f),
    {
        let line = ls[i].as_str();
        let ghost before = parsed@;
        proof {
            assert(views(ls@).take(i + 1).drop_last() =~= views(ls@).take(i as int));
            assert(views(ls@)[i as int] == line@);
        }
        if line.unicode_len() > 0 {
            let parts = split_char(line, '\t');
            if parts.len() >= 4 {
                assert(views(parts@)[0] == parts@[0]@ && views(parts@)[1] == parts@[1]@);
                assert(views(parts@)[2] == parts@[2]@ && views(parts@)[3] == parts@[3]@);
                parsed.push(
                    ImageInfo {
                        repository: parts[0].clone(),
                        tag: parts[1].clone(),
                        image_id: parts[2].clone(),
                        size: parts[3].clone(),
                    },
                );
                assert(image_views(parsed@) =~= image_views(before).push(
                    listing_line_image(line@)->0,
                ));
            }
        }
        assert(image_views(parsed@) =~= views(ls@).take(i + 1).filter_map(f));
    }
    assert(views(ls@).take(n as int) =~= views(ls@));
    if all {
        return parsed;
    }
    let mut kept: Vec<ImageInfo> = Vec::new();
    let m = parsed.len();
    let ghost pred = |i: (Seq<char>, Seq<char>, Seq<char>, Seq<char>)| agentkernel_related(i);
    for i in 0..m
        invariant
            m == parsed@.len(),
            pred == (|i: (Seq<char>, Seq<char>, Seq<char>, Seq<char>)| agentkernel_related(i)),
            image_views(kept@) == image_views(parsed@).take(i as int).filter(pred),
    {
        let img = &parsed[i];
        proof {
            assert(image_views(parsed@).take(i + 1) =~= image_views(parsed@).take(i as int).push(
                image_view(*img),
            ));
            image_views(parsed@).take(i as int).lemma_filter_push(image_view(*img), pred);
        }
        if is_agentkernel_related(img) {
            let ghost before = kept@;
            kept.push(
                ImageInfo {
                    repository: img.repository.clone(),
                    tag: img.tag.clone(),
                    image_id: img.image_id.clone(),
                    size: img.size.clone(),
                },
            );
            assert(image_views(kept@) =~= image_views(before).push(image_view(*img)));
        }
    }
    assert(image_views(parsed@).take(m as int) =~= image_views(parsed@));
    kept
}

/// How many sandbox records mention `image_name`.
pub open spec fn usage_count(contents: Seq<Seq<char>>, image_name: Seq<char>) -> nat {
    contents.filter(|c: Seq<char>| has_substring(c, image_name)).len()
}

/// Count the sandbox records (the contents of their JSON files) that
/// mention `image_name`.
pub fn sandbox_usage_in(contents: &Vec<String>, image_name: &str) -> (r: usize)
    ensures
        r == usage_count(views(contents@), image_name@),
{
    let ghost pred = |c: Seq<char>| has_substring(c, image_name@);
    let mut count: usize = 0;
    let n = contents.len();
    for i in 0..n
        invariant
            n == contents@.len(),
            pred == (|c: Seq<char>| has_substring(c, image_name@)),
            count == views(contents@).take(i as int).filter(pred).len(),
            count <= i,
    {
        proof {
            assert(views(contents@).take(i + 1) =~= views(contents@).take(i as int).push(
                contents@[i as int]@,
            ));
            views(contents@).take(i as int).lemma_filter_push(contents@[i as int]@, pred);
        }
        if contains_str(contents[i].as_str(), image_name) {
            count = count + 1;
        }
    }
    assert(views(contents@).take(n as int) =~= views(contents@));
    count
}

/// The IDs of the images no sandbox uses (`usage[i]` is the use count of
/// `images[i]`), in order.
pub open spec fn unused_image_ids(images: Seq<ImageInfo>, usage: Seq<usize>) -> Seq<Seq<char>>
    decreases images.len(),
{
    if images.len() == 0 {
        Seq::empty()
    } else {
        let rest = unused_image_ids(images.drop_last(), usage);
        if usage[images.len() - 1] == 0 {
            rest.push(images.last().image_id@)
        } else {
            rest
        }
    }
}

/// The images to remove when pruning agentkernel images: those no sandbox
/// uses.
pub fn images_to_prune(images: &Vec<ImageInfo>, usage: &Vec<usize>) -> (r: Vec<String>)
    requires
        usage@.len() == images@.len(),
    ensures
        views(r@) == unused_image_ids(images@, usage@),
{
    let mut r: Vec<String> = Vec::new();
    let n = images.len();
    for i in 0..n
        invariant
            n == images@.len(),
            usage@.len() == n,
            views(r@) == unused_image_ids(images@.take(i as int), usage@),
    {
        assert(images@.take(i + 1).drop_last() =~= images@.take(i as int));
        if usage[i] == 0 {
            let ghost before = r@;
            r.push(images[i].image_id.clone());
            assert(views(r@) =~= views(before).push(images@[i as int].image_id@));
        }
    }
    assert(images@.take(n as int) =~= images@);
    r
}

/// The summary of an agentkernel-only prune.
pub fn prune_summary(removed: u64) -> (r: String)
    ensures
        r@ == dec_repr(removed as nat) + " agentkernel image(s) removed"@,
{
    let mut r = String::new();
    push_dec_u64(&mut r, removed);
    r.append(" agentkernel image(s) removed");
    r
}

} // verus!
