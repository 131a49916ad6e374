//! Icon lookup for display: a catalogue of icon files keyed by icon name,
//! each name carrying one file per image kind, and a preference order
//! over the kinds (scalable best, then sized bitmaps by size, then plain
//! bitmaps and symbolic icons). The catalogue's content comes from the
//! caller, which scans the icon directories.
use vstd::prelude::*;

use crate::strutil::str_eq;

verus! {

/// The kind of an icon file.
#[derive(Debug, Clone, Copy, PartialEq, Eq, Structural)]
pub enum ImageType {
    /// A bitmap from a size-named theme directory (the size in pixels).
    SizedBitmap(u32),
    /// A bitmap of unknown size.
    Bitmap,
    /// A vector image.
    Scalable,
    /// A monochrome symbolic icon.
    Symbolic,
}

/// The preference order on image kinds: `a` beats `b`. Scalable beats
/// everything else; sized bitmaps beat the rest and compare by size;
/// plain bitmaps and symbolic icons tie.
pub open spec fn img_gt(a: ImageType, b: ImageType) -> bool {
    if a == b {
        false
    } else {
        match (a, b) {
            (ImageType::Scalable, _) => true,
            (_, ImageType::Scalable) => false,
            (ImageType::SizedBitmap(x), ImageType::SizedBitmap(y)) => x > y,
            (ImageType::SizedBitmap(_), _) => true,
            (_, ImageType::SizedBitmap(_)) => false,
            _ => false,
        }
    }
}

/// Exec test for `img_gt`.
pub fn image_type_gt(a: ImageType, b: ImageType) -> (r: bool)
    ensures
        r == img_gt(a, b),
{
    if a == b {
        false
    } else {
        match (a, b) {
            (ImageType::Scalable, _) => true,
            (_, ImageType::Scalable) => false,
            (ImageType::SizedBitmap(x), ImageType::SizedBitmap(y)) => x > y,
            (ImageType::SizedBitmap(_), _) => true,
            (_, ImageType::SizedBitmap(_)) => false,
            _ => false,
        }
    }
}

/// One name's alternatives: a file path per image kind.
pub type IconBucket = Vec<(ImageType, String)>;

/// The views of a bucket.
pub open spec fn bucket_view(v: Seq<(ImageType, String)>) -> Seq<(ImageType, Seq<char>)> {
    Seq::new(v.len(), |i: int| (v[i].0, v[i].1@))
}

/// The index of the preferred alternative among the first `n` entries:
/// the first entry whose kind beats every earlier choice.
pub open spec fn best_upto(b: Seq<(ImageType, Seq<char>)>, n: int) -> int
    decreases n,
{
    if n <= 1 {
        0
    } else {
        let prev = best_upto(b, n - 1);
        if img_gt(b[n - 1].0, b[prev].0) {
            n - 1
        } else {
            prev
        }
    }
}

/// The preferred file of a bucket, if the bucket is non-empty.
pub open spec fn spec_best_path(b: Seq<(ImageType, Seq<char>)>) -> Option<Seq<char>> {
    if b.len() == 0 {
        None
    } else {
        Some(b[best_upto(b, b.len() as int)].1)
    }
}

/// The icon catalogue.
#[derive(Debug)]
pub struct IconLoader {
    icons: Vec<(String, IconBucket)>,
}

impl View for IconLoader {
    type V = Seq<(Seq<char>, Seq<(ImageType, Seq<char>)>)>;

    closed spec fn view(&self) -> Seq<(Seq<char>, Seq<(ImageType, Seq<char>)>)> {
        Seq::new(self.icons@.len(), |i: int| (self.icons@[i].0@, bucket_view(self.icons@[i].1@)))
    }
}

/// The first catalogue entry for a name, if any.
pub open spec fn entry_for(
    cat: Seq<(Seq<char>, Seq<(ImageType, Seq<char>)>)>,
    name: Seq<char>,
    i: int,
) -> Option<Seq<(ImageType, Seq<char>)>>
    decreases cat.len() - i,
{
    if i < 0 || i >= cat.len() {
        None
    } else if cat[i].0 == name {
        Some(cat[i].1)
    } else {
        entry_for(cat, name, i + 1)
    }
}

/// The file the catalogue offers for an icon name: nothing for the empty
/// name or an unknown name, else the preferred alternative of the name's
/// bucket.
pub open spec fn spec_icon_path(
    cat: Seq<(Seq<char>, Seq<(ImageType, Seq<char>)>)>,
    name: Seq<char>,
) -> Option<Seq<char>> {
    if name.len() == 0 {
        None
    } else {
        match entry_for(cat, name, 0) {
            None => None,
            Some(b) => spec_best_path(b),
        }
    }
}

proof fn lemma_entry_for(
    cat: Seq<(Seq<char>, Seq<(ImageType, Seq<char>)>)>,
    name: Seq<char>,
    from: int,
    i: int,
)
    requires
        0 <= from <= i <= cat.len(),
        forall|j: int| from <= j < i ==> (#[trigger] cat[j]).0 != name,
        i < cat.len() ==> cat[i].0 == name,
    ensures
        entry_for(cat, name, from) == if i < cat.len() {
            Some(cat[i].1)
        } else {
            None::<Seq<(ImageType, Seq<char>)>>
        },
    decreases i - from,
{
    if from < i {
        lemma_entry_for(cat, name, from + 1, i);
    }
}

impl IconLoader {
    /// Builds the catalogue from scanned entries, kept in the order given.
    pub fn new(icons: Vec<(String, IconBucket)>) -> (r: IconLoader)
        ensures
            r@ == Seq::new(icons@.len(), |i: int| (icons@[i].0@, bucket_view(icons@[i].1@))),
    {
        IconLoader { icons }
    }

    /// The path of the preferred icon file for a name.
    pub fn icon_path(&self, icon: &str) -> (r: Option<String>)
        ensures
            match r {
                Some(p) => spec_icon_path(self@, icon@) == Some(p@),
                None => spec_icon_path(self@, icon@) is None,
            },
    {
        if icon.is_empty() {
            return None;
        }
        let ghost cat = self@;
        let mut i: usize = 0;
        while i < self.icons.len()
            invariant
                cat == self@,
                cat.len() == self.icons@.len(),
                i <= self.icons@.len(),
                icon@.len() > 0,
                forall|j: int| 0 <= j < i ==> (#[trigger] cat[j]).0 != icon@,
            decreases self.icons@.len() - i,
        {
            proof {
                assert(cat[i as int] == (self.icons@[i as int].0@, bucket_view(
                    self.icons@[i as int].1@,
                )));
            }
            if str_eq(self.icons[i].0.as_str(), icon) {
                proof {
                    lemma_entry_for(cat, icon@, 0, i as int);
                }
                let bucket = &self.icons[i].1;
                let ghost bv = bucket_view(bucket@);
                if bucket.len() == 0 {
                    return None;
                }
                let mut best: usize = 0;
                let mut k: usize = 1;
                while k < bucket.len()
                    invariant
                        bv == bucket_view(bucket@),
                        bv.len() == bucket@.len(),
                        1 <= k <= bucket@.len(),
                        best < k,
                        best == best_upto(bv, k as int),
                    decreases bucket@.len() - k,
                {
                    proof {
                        assert(bv[k as int] == (bucket@[k as int].0, bucket@[k as int].1@));
                        assert(bv[best as int] == (bucket@[best as int].0, bucket@[best as int].1@));
                    }
                    if image_type_gt(bucket[k].0, bucket[best].0) {
                        best = k;
                    }
                    k = k + 1;
                }
                proof {
                    assert(bv[best as int] == (bucket@[best as int].0, bucket@[best as int].1@));
                }
                return Some(bucket[best].1.clone());
            }
            i = i + 1;
        }
        proof {
            lemma_entry_for(cat, icon@, 0, cat.len() as int);
        }
        None
    }
}

} // verus!
