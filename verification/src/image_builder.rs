//! Custom images built from Dockerfiles and stored locally for use with
//! sandboxes: their metadata, the store of built images, and the checks
//! and Docker arguments of a build.

use vstd::prelude::*;
use crate::text::{
    chars_of, dec_char, dec_repr, push_dec_digit, push_dec_u64, contains_str, has_substring, parse_u64, parse_u64_spec, split_whitespace, str_eq, trim_str, trimmed, views,
    words_of,
};
use crate::http_api::{join_path, path_join};
use std::collections::HashMap;
use vstd::arithmetic::power2::{lemma2_to64, lemma_pow2_unfold, pow2};
use vstd::arithmetic::div_mod::{
    lemma_div_denominator, lemma_div_is_ordered_by_denominator, lemma_fundamental_div_mod, lemma_mod_bound,
};

verus! {

broadcast use vstd::string::group_string_axioms;

/// Metadata for a locally built image.
#[derive(Debug, Clone)]
pub struct LocalImage {
    /// Image name/tag (e.g., "my-tools")
    pub name: String,
    /// Docker image ID (sha256:...)
    pub image_id: String,
    /// Size in bytes
    pub size_bytes: u64,
    /// When the image was built (RFC3339)
    pub built_at: String,
    /// Dockerfile path used to build
    pub dockerfile: Option<String>,
    /// Build context path
    pub context: Option<String>,
    /// Labels from the image
    pub labels: HashMap<String, String>,
}

/// The Docker reference of a local image: `agentkernel-<name>`.
pub open spec fn docker_ref_of(name: Seq<char>) -> Seq<char> {
    "agentkernel-"@ + name
}

/// The shift that brings `n` below 2^53, the precision of an `f64`.
pub open spec fn float_shift(n: nat) -> nat
    decreases n,
{
    if n < 0x20_0000_0000_0000 {
        0
    } else {
        1 + float_shift(n / 2)
    }
}

/// The value of `n as f64`: `n` rounded to 53 significant bits, ties to even.
pub open spec fn nearest_f64(n: nat) -> nat {
    let p = pow2(float_shift(n));
    let q = n / p;
    let r = n % p;
    if p == 1 {
        n
    } else if r * 2 > p || (r * 2 == p && q % 2 == 1) {
        (q + 1) * p
    } else {
        q * p
    }
}

/// `v / unit` rounded to tenths, ties to even, as `{:.1}` rounds it.
pub open spec fn rounded_tenths(v: nat, unit: nat) -> nat {
    let t = 10 * v / unit;
    let r = (10 * v) % unit;
    if r * 2 > unit || (r * 2 == unit && t % 2 == 1) {
        t + 1
    } else {
        t
    }
}

/// A count of tenths written with one decimal.
pub open spec fn tenths_text(t: nat) -> Seq<char> {
    dec_repr(t / 10) + seq!['.', dec_char(t % 10)]
}

/// A size in bytes in the largest of GB, MB and KB that it reaches, with one
/// decimal, or in bytes below 1024.
pub open spec fn size_text(size: nat) -> Seq<char> {
    if size >= 0x4000_0000 {
        tenths_text(rounded_tenths(nearest_f64(size), 0x4000_0000)) + "GB"@
    } else if size >= 0x10_0000 {
        tenths_text(rounded_tenths(size, 0x10_0000)) + "MB"@
    } else if size >= 1024 {
        tenths_text(rounded_tenths(size, 1024)) + "KB"@
    } else {
        dec_repr(size) + "B"@
    }
}

/// `n as f64`, held exactly as an integer.
fn nearest_f64_value(n: u64) -> (v: u128)
    ensures
        v == nearest_f64(n as nat),
        v <= 0x2_0000_0000_0000_0000,
{
    let mut q: u64 = n;
    let mut p: u128 = 1;
    let ghost mut s: nat = 0;
    proof {
        lemma2_to64();
    }
    while q >= 0x20_0000_0000_0000
        invariant
            p == pow2(s),
            1 <= p < 4096,
            q == n as nat / p as nat,
            float_shift(n as nat) == s + float_shift(q as nat),
        decreases q,
    {
        proof {
            lemma_fundamental_div_mod(n as int, p as int);
            assert(p * q <= n);
            assert(p * 0x20_0000_0000_0000 <= p * q) by (nonlinear_arith)
                requires
                    q >= 0x20_0000_0000_0000,
                    p >= 1,
            ;
            lemma_div_denominator(n as int, p as int, 2);
            lemma_pow2_unfold(s + 1);
        }
        q = q / 2;
        p = p * 2;
        proof {
            s = s + 1;
        }
    }
    if p == 1 {
        proof {
            assert(n as nat / 1 == n);
        }
        return n as u128;
    }
    proof {
        lemma_fundamental_div_mod(n as int, p as int);
        lemma_mod_bound(n as int, p as int);
    }
    let r: u128 = n as u128 - q as u128 * p;
    assert(r == n as nat % p as nat);
    let up = r * 2 > p || (r * 2 == p && q % 2 == 1);
    if up {
        assert((q + 1) * p <= 0x20_0000_0000_0000 * 4096) by (nonlinear_arith)
            requires
                q < 0x20_0000_0000_0000,
                p < 4096,
        ;
        (q as u128 + 1) * p
    } else {
        assert(q * p <= 0x20_0000_0000_0000 * 4096) by (nonlinear_arith)
            requires
                q < 0x20_0000_0000_0000,
                p < 4096,
        ;
        q as u128 * p
    }
}

/// `v / unit` rounded to tenths, ties to even.
fn tenths_of(v: u128, unit: u128) -> (t: u64)
    requires
        v <= 0x2_0000_0000_0000_0000,
        1024 <= unit <= 0x4000_0000,
    ensures
        t == rounded_tenths(v as nat, unit as nat),
{
    let tv: u128 = 10 * v;
    let t = tv / unit;
    let r = tv % unit;
    proof {
        lemma_div_is_ordered_by_denominator(tv as int, 1024, unit as int);
    }
    if r * 2 > unit || (r * 2 == unit && t % 2 == 1) {
        (t + 1) as u64
    } else {
        t as u64
    }
}

/// Append a count of tenths with one decimal to `s`.
fn push_tenths(s: &mut String, t: u64)
    ensures
        final(s)@ == old(s)@ + tenths_text(t as nat),
{
    push_dec_u64(s, t / 10);
    s.append(".");
    push_dec_digit(s, (t % 10) as u8);
    proof {
        reveal_strlit(".");
    }
    assert(s@ =~= old(s)@ + tenths_text(t as nat));
}

impl LocalImage {
    /// Format the size for display, e.g. `100.0MB`.
    pub fn format_size(&self) -> (r: String)
        ensures
            r@ == size_text(self.size_bytes as nat),
    {
        let size = self.size_bytes;
        let mut r = String::new();
        if size >= 0x4000_0000 {
            let v = nearest_f64_value(size);
            push_tenths(&mut r, tenths_of(v, 0x4000_0000));
            r.append("GB");
            proof {
                reveal_strlit("GB");
            }
        } else if size >= 0x10_0000 {
            push_tenths(&mut r, tenths_of(size as u128, 0x10_0000));
            r.append("MB");
            proof {
                reveal_strlit("MB");
            }
        } else if size >= 1024 {
            push_tenths(&mut r, tenths_of(size as u128, 1024));
            r.append("KB");
            proof {
                reveal_strlit("KB");
            }
        } else {
            push_dec_u64(&mut r, size);
            r.append("B");
            proof {
                reveal_strlit("B");
            }
        }
        assert(r@ =~= size_text(size as nat));
        r
    }

    /// Get the full Docker image reference.
    pub fn docker_ref(&self) -> (r: String)
        ensures
            r@ == docker_ref_of(self.name@),
    {
        let mut r = String::from_str("agentkernel-");
        r.append(self.name.as_str());
        r
    }
}

/// Manages locally built images, each known by its name.
pub struct ImageBuilder {
    metadata_dir: String,
    images: Vec<LocalImage>,
}

/// Whether no two images share a name.
pub open spec fn names_unique(images: Seq<LocalImage>) -> bool {
    forall|i: int, j: int| 0 <= i < images.len() && 0 <= j < images.len() && i != j ==> #[trigger] images[i].name@ != #[trigger] images[j].name@
}

/// Whether some image has the given name.
pub open spec fn has_image(images: Seq<LocalImage>, name: Seq<char>) -> bool {
    exists|i: int| 0 <= i < images.len() && #[trigger] images[i].name@ == name
}

/// What `resolve_image` gives for `name`.
pub open spec fn resolved_image(images: Seq<LocalImage>, name: Seq<char>) -> Seq<char> {
    if has_image(images, name) {
        docker_ref_of(name)
    } else {
        name
    }
}

/// The images with a name other than `name`.
pub open spec fn without_name(images: Seq<LocalImage>, name: Seq<char>) -> Seq<LocalImage> {
    images.filter(name_differs(name))
}

/// Whether an image has a name other than `name`.
pub open spec fn name_differs(name: Seq<char>) -> spec_fn(LocalImage) -> bool {
    |img: LocalImage| img.name@ != name
}

/// The items of `v` in reverse order.
fn reversed<T>(v: Vec<T>) -> (r: Vec<T>)
    ensures
        r@.len() == v@.len(),
        forall|k: int| 0 <= k < r@.len() ==> #[trigger] r@[k] == v@[v@.len() - 1 - k],
{
    let ghost all = v@;
    let n = v.len();
    let mut src = v;
    let mut r: Vec<T> = Vec::new();
    while src.len() > 0
        invariant
            n == all.len(),
            src@ == all.take(src@.len() as int),
            r@.len() + src@.len() == n,
            forall|k: int| 0 <= k < r@.len() ==> #[trigger] r@[k] == all[n - 1 - k],
        decreases src@.len(),
    {
        let x = src.pop().unwrap();
        r.push(x);
    }
    r
}

impl ImageBuilder {
    /// The images held, one per name.
    pub closed spec fn images(&self) -> Seq<LocalImage> {
        self.images@
    }

    /// The directory where image metadata is stored.
    pub closed spec fn dir(&self) -> Seq<char> {
        self.metadata_dir@
    }

    /// The store's invariant: one image per name.
    pub closed spec fn well_formed(&self) -> bool {
        names_unique(self.images@)
    }

    /// An empty store keeping metadata in `metadata_dir`.
    pub fn empty(metadata_dir: String) -> (b: Self)
        ensures
            b.well_formed(),
            b.images().len() == 0,
            b.dir() == metadata_dir@,
    {
        ImageBuilder { metadata_dir, images: Vec::new() }
    }

    /// A store holding `images` in order, a later image replacing an
    /// earlier one of the same name (as loading metadata files does).
    pub fn with_images(metadata_dir: String, images: Vec<LocalImage>) -> (b: Self)
        ensures
            b.well_formed(),
            b.dir() == metadata_dir@,
            forall|n: Seq<char>| has_image(b.images(), n) <==> has_image(images@, n),
    {
        let mut b = Self::empty(metadata_dir);
        let ghost all = images@;
        let mut rest = reversed(images);
        let n = rest.len();
        for i in 0..n
            invariant
                n == all.len(),
                rest@.len() == n - i,
                forall|k: int| 0 <= k < rest@.len() ==> #[trigger] rest@[k] == all[n - 1 - k],
                b.well_formed(),
                b.dir() == metadata_dir@,
                forall|m: Seq<char>| has_image(b.images(), m) <==> has_image(all.take(i as int), m),
        {
            let img = rest.pop().unwrap();
            assert(img == all[i as int]);
            let ghost before = b.images();
            b.insert(img);
            assert forall|m: Seq<char>| has_image(b.images(), m) <==> has_image(all.take(i + 1), m) by {
                if has_image(all.take(i + 1), m) {
                    let k = choose|k: int| 0 <= k < all.take(i + 1).len() && #[trigger] all.take(i + 1)[k].name@ == m;
                    if k < i {
                        assert(all.take(i as int)[k].name@ == m);
                    }
                }
                if has_image(all.take(i as int), m) {
                    let k = choose|k: int| 0 <= k < all.take(i as int).len() && #[trigger] all.take(i as int)[k].name@ == m;
                    assert(all.take(i + 1)[k].name@ == m);
                }
                if m == all[i as int].name@ {
                    assert(all.take(i + 1)[i as int].name@ == m);
                }
            }
        }
        assert(all.take(n as int) =~= all);
        b
    }

    /// Record a built image, replacing any image of the same name.
    pub fn insert(&mut self, image: LocalImage)
        requires
            old(self).well_formed(),
        ensures
            final(self).well_formed(),
            final(self).dir() == old(self).dir(),
            final(self).images() == without_name(old(self).images(), image.name@).push(image),
            forall|m: Seq<char>| has_image(final(self).images(), m) <==> (has_image(old(self).images(), m) || m == image.name@),
    {
        let ghost name = image.name@;
        self.remove(image.name.as_str());
        let ghost mid = self.images@;
        self.images.push(image);
        proof {
            assert forall|i: int, j: int| 0 <= i < self.images@.len() && 0 <= j < self.images@.len() && i != j implies #[trigger] self.images@[i].name@ != #[trigger] self.images@[j].name@ by {
                if i == mid.len() as int {
                    assert(!has_image(mid, name));
                    assert(mid[j] == self.images@[j]);
                } else if j == mid.len() as int {
                    assert(!has_image(mid, name));
                    assert(mid[i] == self.images@[i]);
                } else {
                    assert(mid[i] == self.images@[i]);
                    assert(mid[j] == self.images@[j]);
                }
            }
            assert forall|m: Seq<char>| has_image(self.images@, m) <==> (has_image(old(self).images@, m) || m == name) by {
                if has_image(self.images@, m) && m != name {
                    let k = choose|k: int| 0 <= k < self.images@.len() && #[trigger] self.images@[k].name@ == m;
                    assert(k < mid.len());
                    assert(mid[k] == self.images@[k]);
                    assert(has_image(mid, m));
                }
                if has_image(old(self).images@, m) && m != name {
                    assert(has_image(mid, m));
                    let k = choose|k: int| 0 <= k < mid.len() && #[trigger] mid[k].name@ == m;
                    assert(self.images@[k] == mid[k]);
                }
                if m == name {
                    assert(self.images@[mid.len() as int].name@ == m);
                }
            }
        }
    }

    /// Forget the image called `name`. Returns whether one was held.
    pub fn remove(&mut self, name: &str) -> (r: bool)
        requires
            old(self).well_formed(),
        ensures
            final(self).well_formed(),
            final(self).dir() == old(self).dir(),
            r == has_image(old(self).images(), name@),
            final(self).images() == without_name(old(self).images(), name@),
            !has_image(final(self).images(), name@),
            forall|m: Seq<char>| m != name@ ==> (has_image(final(self).images(), m) <==> has_image(old(self).images(), m)),
    {
        let ghost old_images = self.images@;
        let mut kept: Vec<LocalImage> = Vec::new();
        let mut found = false;
        let n = self.images.len();
        let ghost pred = name_differs(name@);
        // Move the images out in order.
        let mut source = Vec::new();
        std::mem::swap(&mut source, &mut self.images);
        let mut source = reversed(source);
        for i in 0..n
            invariant
                n == old_images.len(),
                source@.len() == n - i,
                forall|k: int| 0 <= k < source@.len() ==> #[trigger] source@[k] == old_images[n - 1 - k],
                pred == name_differs(name@),
                kept@ == old_images.take(i as int).filter(pred),
                found == has_image(old_images.take(i as int), name@),
                names_unique(old_images),
                names_unique(kept@),
                forall|k: int| 0 <= k < kept@.len() ==> exists|j: int| 0 <= j < i && (#[trigger] kept@[k]).name@ == old_images[j].name@,
        {
            let img = source.pop().unwrap();
            assert(img == old_images[i as int]);
            proof {
                assert(old_images.take(i + 1) =~= old_images.take(i as int).push(img));
                old_images.take(i as int).lemma_filter_push(img, pred);
            }
            let same = str_eq(img.name.as_str(), name);
            if same {
                found = true;
                assert(old_images.take(i + 1)[i as int].name@ == name@);
            } else {
                let ghost kb = kept@;
                kept.push(img);
                proof {
                    assert forall|k: int| 0 <= k < kb.len() implies #[trigger] kb[k].name@ != img.name@ by {
                        let j = choose|j: int| 0 <= j < i && kb[k].name@ == old_images[j].name@;
                        assert(old_images[j].name@ != old_images[i as int].name@);
                    }
                    assert forall|a: int, c: int| 0 <= a < kept@.len() && 0 <= c < kept@.len() && a != c implies #[trigger] kept@[a].name@ != #[trigger] kept@[c].name@ by {
                        if a < kb.len() && c < kb.len() {
                            assert(kept@[a] == kb[a] && kept@[c] == kb[c]);
                        } else if a < kb.len() {
                            assert(kept@[a] == kb[a]);
                        } else {
                            assert(kept@[c] == kb[c]);
                        }
                    }
                    assert forall|k: int| 0 <= k < kept@.len() implies exists|j: int| 0 <= j < i + 1 && (#[trigger] kept@[k]).name@ == old_images[j].name@ by {
                        if k < kb.len() {
                            assert(kept@[k] == kb[k]);
                            let j = choose|j: int| 0 <= j < i && kb[k].name@ == old_images[j].name@;
                            assert(kept@[k].name@ == old_images[j].name@);
                        } else {
                            assert(kept@[k].name@ == old_images[i as int].name@);
                        }
                    }
                }
            }
            proof {
                if !same && has_image(old_images.take(i + 1), name@) {
                    let k = choose|k: int| 0 <= k < old_images.take(i + 1).len() && #[trigger] old_images.take(i + 1)[k].name@ == name@;
                    assert(old_images.take(i as int)[k].name@ == name@);
                }
                if has_image(old_images.take(i as int), name@) {
                    let k = choose|k: int| 0 <= k < old_images.take(i as int).len() && #[trigger] old_images.take(i as int)[k].name@ == name@;
                    assert(old_images.take(i + 1)[k].name@ == name@);
                }
            }
        }
        assert(old_images.take(n as int) =~= old_images);
        self.images = kept;
        proof {
            let f = self.images@;
            assert forall|k: int| 0 <= k < f.len() implies #[trigger] f[k].name@ != name@ && old_images.contains(f[k]) by {
                old_images.lemma_filter_pred(pred, k);
                old_images.lemma_filter_contains_rev(pred, f[k]);
            }
            assert forall|m: Seq<char>| m != name@ implies (has_image(f, m) <==> has_image(old_images, m)) by {
                if has_image(f, m) {
                    let k = choose|k: int| 0 <= k < f.len() && #[trigger] f[k].name@ == m;
                    let j = choose|j: int| 0 <= j < old_images.len() && old_images[j] == f[k];
                    assert(old_images[j].name@ == m);
                }
                if has_image(old_images, m) {
                    let k = choose|k: int| 0 <= k < old_images.len() && #[trigger] old_images[k].name@ == m;
                    old_images.lemma_filter_contains(pred, k);
                    let j = choose|j: int| 0 <= j < f.len() && f[j] == old_images[k];
                    assert(f[j].name@ == m);
                }
            }
            if has_image(f, name@) {
                let k = choose|k: int| 0 <= k < f.len() && #[trigger] f[k].name@ == name@;
            }
        }
        found
    }

    fn position(&self, name: &str) -> (r: Option<usize>)
        ensures
            r is None ==> !has_image(self.images(), name@),
            r matches Some(i) ==> i < self.images().len() && self.images()[i as int].name@ == name@,
    {
        let n = self.images.len();
        for i in 0..n
            invariant
                n == self.images@.len(),
                forall|j: int| 0 <= j < i ==> self.images@[j].name@ != name@,
        {
            if str_eq(self.images[i].name.as_str(), name) {
                return Some(i);
            }
        }
        None
    }

    /// Get an image by name.
    pub fn get(&self, name: &str) -> (r: Option<&LocalImage>)
        ensures
            r is Some <==> has_image(self.images(), name@),
            r matches Some(img) ==> img.name@ == name@ && exists|i: int| 0 <= i < self.images().len() && self.images()[i] == *img,
    {
        match self.position(name) {
            Some(i) => Some(&self.images[i]),
            None => None,
        }
    }

    /// Check if an image exists locally.
    pub fn image_exists(&self, name: &str) -> (r: bool)
        ensures
            r == has_image(self.images(), name@),
    {
        self.position(name).is_some()
    }

    /// List all locally built images.
    pub fn list(&self) -> (r: Vec<&LocalImage>)
        ensures
            r@.len() == self.images().len(),
            forall|i: int| 0 <= i < r@.len() ==> *r@[i] == self.images()[i],
    {
        let mut r: Vec<&LocalImage> = Vec::new();
        let n = self.images.len();
        for i in 0..n
            invariant
                n == self.images@.len(),
                r@.len() == i,
                forall|k: int| 0 <= k < i ==> *r@[k] == self.images@[k],
        {
            r.push(&self.images[i]);
        }
        r
    }

    /// Resolve an image name to a Docker reference: the agentkernel-prefixed
    /// name for local images, the name itself for remote ones.
    pub fn resolve_image(&self, name: &str) -> (r: String)
        ensures
            r@ == resolved_image(self.images(), name@),
    {
        if self.image_exists(name) {
            let mut r = String::from_str("agentkernel-");
            r.append(name);
            r
        } else {
            name.to_owned()
        }
    }
}

/// After recording an image, the only image of that name is the one just
/// recorded; every other name keeps its image.
pub proof fn lemma_insert_then_lookup(before: Seq<LocalImage>, img: LocalImage)
    ensures
        forall|k: int| 0 <= k < without_name(before, img.name@).push(img).len() && (#[trigger] without_name(before, img.name@).push(img)[k]).name@ == img.name@ ==> without_name(before, img.name@).push(img)[k] == img,
        forall|j: int| 0 <= j < before.len() && (#[trigger] before[j]).name@ != img.name@ ==> without_name(before, img.name@).push(img).contains(before[j]),
{
    let f = without_name(before, img.name@);
    assert forall|k: int| 0 <= k < f.push(img).len() && (#[trigger] f.push(img)[k]).name@ == img.name@ implies f.push(img)[k] == img by {
        if k < f.len() {
            before.lemma_filter_pred(name_differs(img.name@), k);
        }
    }
    assert forall|j: int| 0 <= j < before.len() && (#[trigger] before[j]).name@ != img.name@ implies f.push(img).contains(before[j]) by {
        before.lemma_filter_contains(name_differs(img.name@), j);
        let k = choose|k: int| 0 <= k < f.len() && f[k] == before[j];
        assert(f.push(img)[k] == before[j]);
    }
}

/// Whether `c` is alphanumeric in the Unicode sense of `char::is_alphanumeric`.
pub uninterp spec fn unicode_alphanumeric(c: char) -> bool;

/// Calls `char::is_alphanumeric` (Unicode alphabetic or numeric); the
/// result is named `unicode_alphanumeric`.
#[verifier::external_body]
fn is_alphanumeric(c: char) -> (r: bool)
    ensures
        r == unicode_alphanumeric(c),
{
    c.is_alphanumeric()
}

/// Why an image name is refused.
#[derive(Debug, Clone, Copy, PartialEq, Eq, Structural)]
pub enum ImageNameError {
    Empty,
    InvalidCharacters,
}

/// The message of each image-name error.
pub open spec fn image_name_error_message(e: ImageNameError) -> Seq<char> {
    match e {
        ImageNameError::Empty => "Image name cannot be empty"@,
        ImageNameError::InvalidCharacters => "Image name can only contain alphanumeric characters, hyphens, underscores, and dots"@,
    }
}

impl ImageNameError {
    /// The message shown to the user.
    pub fn message(&self) -> (s: String)
        ensures
            s@ == image_name_error_message(*self),
    {
        match self {
            ImageNameError::Empty => String::from_str("Image name cannot be empty"),
            ImageNameError::InvalidCharacters => String::from_str(
                "Image name can only contain alphanumeric characters, hyphens, underscores, and dots",
            ),
        }
    }
}

/// Characters allowed in image names.
pub open spec fn image_name_char(c: char) -> bool {
    unicode_alphanumeric(c) || c == '-' || c == '_' || c == '.'
}

/// Outcome of validating an image name.
pub open spec fn image_name_outcome(name: Seq<char>) -> Result<(), ImageNameError> {
    if name.len() == 0 {
        Err(ImageNameError::Empty)
    } else if forall|i: int| 0 <= i < name.len() ==> image_name_char(#[trigger] name[i]) {
        Ok(())
    } else {
        Err(ImageNameError::InvalidCharacters)
    }
}

/// An image name is non-empty and made of alphanumeric characters,
/// hyphens, underscores and dots.
pub fn validate_image_name(name: &str) -> (r: Result<(), ImageNameError>)
    ensures
        r == image_name_outcome(name@),
{
    let cs = chars_of(name);
    let n = cs.len();
    if n == 0 {
        return Err(ImageNameError::Empty);
    }
    for i in 0..n
        invariant
            n == cs@.len(),
            cs@ == name@,
            forall|j: int| 0 <= j < i ==> image_name_char(#[trigger] name@[j]),
    {
        let c = cs[i];
        if !(is_alphanumeric(c) || c == '-' || c == '_' || c == '.') {
            assert(!image_name_char(name@[i as int]));
            return Err(ImageNameError::InvalidCharacters);
        }
    }
    Ok(())
}

/// The arguments of `docker build` for an image.
pub open spec fn build_args_of(name: Seq<char>, dockerfile: Seq<char>, context: Seq<char>) -> Seq<Seq<char>> {
    seq![
        "build"@,
        "-t"@,
        docker_ref_of(name),
        "-f"@,
        dockerfile,
        "--label"@,
        "agentkernel.managed=true"@,
        "--label"@,
        "agentkernel.name="@ + name,
        context,
    ]
}

/// The `docker build` arguments: tag `agentkernel-<name>`, the Dockerfile,
/// the labels marking the image as managed, and the build context.
pub fn docker_build_args(name: &str, dockerfile: &str, context: &str) -> (r: Vec<String>)
    ensures
        views(r@) == build_args_of(name@, dockerfile@, context@),
{
    let mut r: Vec<String> = Vec::new();
    r.push(String::from_str("build"));
    r.push(String::from_str("-t"));
    let mut tag = String::from_str("agentkernel-");
    tag.append(name);
    r.push(tag);
    r.push(String::from_str("-f"));
    r.push(dockerfile.to_owned());
    r.push(String::from_str("--label"));
    r.push(String::from_str("agentkernel.managed=true"));
    r.push(String::from_str("--label"));
    let mut label = String::from_str("agentkernel.name=");
    label.append(name);
    r.push(label);
    r.push(context.to_owned());
    assert(views(r@) =~= build_args_of(name@, dockerfile@, context@));
    r
}

} // verus!

verus! {

/// Why a build or a deletion fails, each with the message shown to the
/// user.
#[derive(Debug, Clone, PartialEq, Eq)]
pub enum ImageError {
    /// The build context directory does not exist.
    MissingContext(String),
    /// The given Dockerfile does not exist.
    MissingDockerfile(String),
    /// The context holds no `Dockerfile` and none was given.
    NoDockerfile(String),
    /// `docker build` failed with this error output.
    BuildFailed(String),
    /// `docker inspect` of the built image failed.
    InspectFailed,
    /// No image of this name was built.
    NotFound(String),
    /// `docker rmi` failed with this (trimmed) error output.
    RemoveFailed(String),
}

/// The message of each error.
pub open spec fn image_error_message(e: ImageError) -> Seq<char> {
    match e {
        ImageError::MissingContext(c) => "Build context '"@ + c@ + "' does not exist"@,
        ImageError::MissingDockerfile(d) => "Dockerfile '"@ + d@ + "' does not exist"@,
        ImageError::NoDockerfile(c) => "No Dockerfile found in '"@ + c@ + "'. Specify one with --dockerfile"@,
        ImageError::BuildFailed(e) => "Docker build failed:\n"@ + e@,
        ImageError::InspectFailed => "Failed to get image info after build"@,
        ImageError::NotFound(n) => "Image '"@ + n@ + "' not found"@,
        ImageError::RemoveFailed(e) => "Failed to remove Docker image: "@ + e@,
    }
}

impl ImageError {
    /// The message shown to the user.
    pub fn message(&self) -> (s: String)
        ensures
            s@ == image_error_message(*self),
    {
        match self {
            ImageError::MissingContext(c) => {
                let mut s = String::from_str("Build context '");
                s.append(c.as_str());
                s.append("' does not exist");
                s
            },
            ImageError::MissingDockerfile(d) => {
                let mut s = String::from_str("Dockerfile '");
                s.append(d.as_str());
                s.append("' does not exist");
                s
            },
            ImageError::NoDockerfile(c) => {
                let mut s = String::from_str("No Dockerfile found in '");
                s.append(c.as_str());
                s.append("'. Specify one with --dockerfile");
                s
            },
            ImageError::BuildFailed(e) => {
                let mut s = String::from_str("Docker build failed:\n");
                s.append(e.as_str());
                s
            },
            ImageError::InspectFailed => String::from_str("Failed to get image info after build"),
            ImageError::NotFound(n) => {
                let mut s = String::from_str("Image '");
                s.append(n.as_str());
                s.append("' not found");
                s
            },
            ImageError::RemoveFailed(e) => {
                let mut s = String::from_str("Failed to remove Docker image: ");
                s.append(e.as_str());
                s
            },
        }
    }
}

/// The Dockerfile a build uses when none is given: `Dockerfile` in the
/// build context.
pub fn default_dockerfile(context: &str) -> (r: String)
    ensures
        r@ == join_path(context@, "Dockerfile"@),
{
    path_join(context, "Dockerfile")
}

/// The image ID and size read from `docker inspect --format "{{.Id}}
/// {{.Size}}"`: the first word (empty when there is none) and the second
/// one as a number (0 when absent or not a number).
pub open spec fn inspect_fields(stdout: Seq<char>) -> (Seq<char>, u64) {
    let w = words_of(stdout);
    (
        if w.len() > 0 {
            w[0]
        } else {
            Seq::empty()
        },
        if w.len() > 1 {
            match parse_u64_spec(w[1]) {
                Some(v) => v,
                None => 0,
            }
        } else {
            0
        },
    )
}

/// Read the image ID and size of a built image from `docker inspect`.
pub fn parse_image_inspect(stdout: &str) -> (r: (String, u64))
    ensures
        (r.0@, r.1) == inspect_fields(stdout@),
{
    let w = split_whitespace(stdout);
    let id = if w.len() > 0 {
        w[0].clone()
    } else {
        String::new()
    };
    let size = if w.len() > 1 {
        match parse_u64(w[1].as_str()) {
            Some(v) => v,
            None => 0,
        }
    } else {
        0
    };
    (id, size)
}

/// The record of a freshly built image.
pub fn built_image(name: &str, inspect_stdout: &str, built_at: String, dockerfile: String, context: String) -> (img: LocalImage)
    ensures
        img.name@ == name@,
        (img.image_id@, img.size_bytes) == inspect_fields(inspect_stdout@),
        img.built_at == built_at,
        img.dockerfile == Some(dockerfile),
        img.context == Some(context),
        img.labels@.len() == 0,
{
    let (image_id, size_bytes) = parse_image_inspect(inspect_stdout);
    LocalImage {
        name: name.to_owned(),
        image_id,
        size_bytes,
        built_at,
        dockerfile: Some(dockerfile),
        context: Some(context),
        labels: HashMap::new(),
    }
}

/// Whether a failed `docker rmi` must be reported: not when Docker no
/// longer has the image.
pub fn rmi_failure(stderr: &str) -> (r: Option<ImageError>)
    ensures
        has_substring(stderr@, "No such image"@) ==> r is None,
        !has_substring(stderr@, "No such image"@) ==> (r matches Some(ImageError::RemoveFailed(e)) && e@ == trimmed(stderr@)),
{
    if contains_str(stderr, "No such image") {
        None
    } else {
        Some(ImageError::RemoveFailed(trim_str(stderr)))
    }
}

impl ImageBuilder {
    /// The Docker reference of the image a deletion removes, or `NotFound`
    /// when no image of that name was built.
    pub fn delete_target(&self, name: &str) -> (r: Result<String, ImageError>)
        requires
            self.well_formed(),
        ensures
            has_image(self.images(), name@) ==> (r matches Ok(t) && t@ == docker_ref_of(name@)),
            !has_image(self.images(), name@) ==> (r matches Err(ImageError::NotFound(n)) && n@ == name@),
    {
        match self.get(name) {
            Some(img) => Ok(img.docker_ref()),
            None => Err(ImageError::NotFound(name.to_owned())),
        }
    }

    /// The metadata file of the image named `name`: `<name>.json` in the
    /// metadata directory.
    pub fn metadata_path(&self, name: &str) -> (r: String)
        ensures
            r@ == join_path(self.dir(), name@ + ".json"@),
    {
        let mut file = String::from_str(name);
        file.append(".json");
        proof {
            reveal_strlit(".json");
        }
        path_join(self.metadata_dir.as_str(), file.as_str())
    }

    /// The names of the images held, in order.
    pub fn names(&self) -> (r: Vec<String>)
        ensures
            r@.len() == self.images().len(),
            forall|i: int| 0 <= i < r@.len() ==> (#[trigger] r@[i])@ == self.images()[i].name@,
    {
        let mut r: Vec<String> = Vec::new();
        let n = self.images.len();
        for i in 0..n
            invariant
                n == self.images@.len(),
                r@.len() == i,
                forall|k: int| 0 <= k < i ==> (#[trigger] r@[k])@ == self.images@[k].name@,
        {
            r.push(self.images[i].name.clone());
        }
        r
    }

    /// Forget the images Docker no longer has (`missing`, in order) and
    /// give the names forgotten.
    pub fn forget_missing(&mut self, missing: &Vec<String>) -> (removed: Vec<String>)
        requires
            old(self).well_formed(),
        ensures
            final(self).well_formed(),
            final(self).dir() == old(self).dir(),
            forall|m: Seq<char>| has_image(final(self).images(), m) <==> (has_image(old(self).images(), m) && !views(missing@).contains(m)),
            forall|k: int| 0 <= k < removed@.len() ==> has_image(old(self).images(), (#[trigger] removed@[k])@),
    {
        let mut work = ImageBuilder::empty(String::new());
        std::mem::swap(&mut work, self);
        let mut removed: Vec<String> = Vec::new();
        let n = missing.len();
        let ghost start = work.images();
        let ghost dir = work.dir();
        assert(views(missing@).take(0) =~= Seq::<Seq<char>>::empty());
        for i in 0..n
            invariant
                n == missing@.len(),
                work.well_formed(),
                work.dir() == dir,
                forall|m: Seq<char>| #[trigger] has_image(work.images(), m) <==> (has_image(start, m) && !views(missing@).take(i as int).contains(m)),
                forall|k: int| 0 <= k < removed@.len() ==> has_image(start, (#[trigger] removed@[k])@),
        {
            let name = missing[i].as_str();
            let ghost before = work.images();
            let was = work.remove(name);
            proof {
                let t = views(missing@).take(i as int);
                assert(views(missing@).take(i + 1) =~= t.push(name@));
                assert forall|m: Seq<char>| #[trigger] has_image(work.images(), m) <==> (has_image(start, m) && !views(missing@).take(
                    i + 1,
                ).contains(m)) by {
                    assert(has_image(before, m) <==> (has_image(start, m) && !t.contains(m)));
                    assert(t.push(name@).contains(m) <==> (t.contains(m) || m == name@)) by {
                        if t.push(name@).contains(m) {
                            let k = choose|k: int| 0 <= k < t.push(name@).len() && t.push(name@)[k] == m;
                            if k < t.len() {
                                assert(t[k] == m);
                            }
                        }
                        if t.contains(m) {
                            let k = choose|k: int| 0 <= k < t.len() && t[k] == m;
                            assert(t.push(name@)[k] == m);
                        }
                        if m == name@ {
                            assert(t.push(name@)[t.len() as int] == m);
                        }
                    }
                }
            }
            if was {
                let ghost old_removed = removed@;
                removed.push(name.to_owned());
                assert forall|k: int| 0 <= k < removed@.len() implies has_image(start, (#[trigger] removed@[k])@) by {
                    if k < old_removed.len() {
                        assert(removed@[k] == old_removed[k]);
                    }
                }
            }
        }
        assert(views(missing@).take(n as int) =~= views(missing@));
        std::mem::swap(&mut work, self);
        removed
    }
}

} // verus!
