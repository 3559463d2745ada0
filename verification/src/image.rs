//! ECU configuration image (in-memory byte buffer of one configuration page).
use vstd::prelude::*;

verus! {

/// In-memory snapshot of the ECU configuration (one page).
#[derive(Debug, Clone)]
pub struct ConfigImage {
    /// Raw bytes of the configuration page
    data: Vec<u8>,
    /// ECU firmware signature associated with this image
    pub signature: String,
}

impl ConfigImage {
    /// The signature this image carries.
    pub closed spec fn spec_signature(&self) -> String {
        self.signature
    }
}

impl View for ConfigImage {
    type V = Seq<u8>;

    closed spec fn view(&self) -> Seq<u8> {
        self.data@
    }
}

/// `a` and `b` agree on every index in `lo..hi`.
pub open spec fn agree(a: Seq<u8>, b: Seq<u8>, lo: int, hi: int) -> bool {
    forall|j: int| #![trigger a[j]] lo <= j < hi ==> a[j] == b[j]
}

/// The common length of two images.
pub open spec fn common_len(a: Seq<u8>, b: Seq<u8>) -> int {
    if a.len() <= b.len() {
        a.len() as int
    } else {
        b.len() as int
    }
}

/// The smallest range `start..end` of common indices outside which `a` and
/// `b` agree (up to the shorter length), or `None` when they agree there.
pub open spec fn spec_first_diff_range(a: Seq<u8>, b: Seq<u8>) -> Option<(int, int)> {
    let len = common_len(a, b);
    if agree(a, b, 0, len) {
        None
    } else {
        Some(
            (
                choose|s: int| 0 <= s < len && a[s] != b[s] && agree(a, b, 0, s),
                (choose|l: int| 0 <= l < len && a[l] != b[l] && agree(a, b, l + 1, len)) + 1,
            ),
        )
    }
}

impl ConfigImage {
    /// Create a new blank image of `size` bytes.
    pub fn new(size: usize, signature: &str) -> (r: Self)
        ensures
            r@ == Seq::new(size as nat, |_i: int| 0u8),
            r.spec_signature()@ == signature@,
    {
        let data = vec![0u8; size];
        assert(data@ =~= Seq::new(size as nat, |_i: int| 0u8));
        Self { data, signature: signature.to_owned() }
    }

    /// Number of bytes in the image.
    pub fn size(&self) -> (r: usize)
        ensures
            r == self@.len(),
    {
        self.data.len()
    }

    /// Read-only view of the raw bytes.
    pub fn as_bytes(&self) -> (r: &[u8])
        ensures
            r@ == self@,
    {
        self.data.as_slice()
    }

    /// Copy `src` into the image at `offset` (used during chunked reads).
    pub fn write_range(&mut self, offset: usize, src: &[u8])
        requires
            offset + src@.len() <= old(self)@.len(),
        ensures
            final(self)@ == old(self)@.take(offset as int) + src@ + old(self)@.skip(
                offset + src@.len(),
            ),
            final(self).spec_signature() == old(self).spec_signature(),
    {
        let ghost before = self.data@;
        let n = self.data.len();
        let mut j: usize = 0;
        while j < src.len()
            invariant
                j <= src@.len(),
                offset + src@.len() <= before.len(),
                self.data@.len() == before.len(),
                n == before.len(),
                self.signature == old(self).signature,
                self.data@.take(offset as int) == before.take(offset as int),
                self.data@.subrange(offset as int, offset + j) == src@.take(j as int),
                self.data@.skip(offset + src@.len()) == before.skip(offset + src@.len()),
            decreases src@.len() - j,
        {
            self.data.set(offset + j, src[j]);
            proof {
                assert(self.data@.subrange(offset as int, offset + j + 1) =~= src@.take(j + 1));
                assert(self.data@.take(offset as int) =~= before.take(offset as int));
                assert(self.data@.skip(offset + src@.len()) =~= before.skip(offset + src@.len()));
            }
            j += 1;
        }
        assert(src@.take(src@.len() as int) =~= src@);
        assert(self.data@ =~= before.take(offset as int) + src@ + before.skip(offset + src@.len()));
    }

    /// Return a sub-slice of the image.
    pub fn range(&self, offset: usize, length: usize) -> (r: &[u8])
        requires
            offset + length <= self@.len(),
        ensures
            r@ == self@.subrange(offset as int, offset + length),
    {
        let bytes = self.data.as_slice();
        let _n = bytes.len();
        vstd::slice::slice_subrange(bytes, offset, offset + length)
    }

    /// Find the first differing byte range between `self` and `other`
    /// (over their common length).
    ///
    /// Returns `Some((start, end))` (exclusive end) or `None` if identical.
    pub fn first_diff_range(&self, other: &ConfigImage) -> (r: Option<(usize, usize)>)
        ensures
            match spec_first_diff_range(self@, other@) {
                None => r is None,
                Some((s, e)) => r == Some((s as usize, e as usize)),
            },
    {
        let a = self.data.as_slice();
        let b = other.data.as_slice();
        let len = if a.len() <= b.len() {
            a.len()
        } else {
            b.len()
        };
        let mut start: usize = 0;
        while start < len && a[start] == b[start]
            invariant
                start <= len,
                len <= a@.len(),
                len <= b@.len(),
                forall|j: int| 0 <= j < start ==> a@[j] == b@[j],
            decreases len - start,
        {
            start += 1;
        }
        if start == len {
            return None;
        }
        let mut end: usize = len;
        while end > start + 1 && a[end - 1] == b[end - 1]
            invariant
                start < end <= len,
                len <= a@.len(),
                len <= b@.len(),
                a@[start as int] != b@[start as int],
                forall|j: int| end <= j < len ==> a@[j] == b@[j],
            decreases end,
        {
            end -= 1;
        }
        proof {
            let sa = self@;
            let sb = other@;
            assert(len == common_len(sa, sb));
            assert(!agree(sa, sb, 0, len as int));
            assert(0 <= start < len && sa[start as int] != sb[start as int] && agree(sa, sb, 0, start as int));
            assert(0 <= end - 1 < len && sa[end - 1] != sb[end - 1] && agree(sa, sb, end as int, len as int));
            let s0 = choose|s: int| 0 <= s < len && sa[s] != sb[s] && agree(sa, sb, 0, s);
            if s0 < start {
                assert(sa[s0] == sb[s0]);
            }
            if s0 > start {
                assert(sa[start as int] == sb[start as int]);
            }
            let l0 = choose|l: int| 0 <= l < len && sa[l] != sb[l] && agree(sa, sb, l + 1, len as int);
            if l0 < end - 1 {
                assert(sa[end - 1] == sb[end - 1]);
            }
            if l0 > end - 1 {
                assert(sa[l0] == sb[l0]);
            }
        }
        Some((start, end))
    }
}

/// What a write puts into the image, a read of the same range gives back, and
/// the rest of the image is unchanged.
pub proof fn lemma_image_write_then_read(image: Seq<u8>, offset: int, src: Seq<u8>)
    requires
        0 <= offset,
        offset + src.len() <= image.len(),
    ensures
        ({
            let after = image.take(offset) + src + image.skip(offset + src.len());
            &&& after.len() == image.len()
            &&& after.subrange(offset, offset + src.len()) == src
            &&& forall|k: int|
                0 <= k < image.len() && !(offset <= k < offset + src.len()) ==> #[trigger] after[k]
                    == image[k]
        }),
{
    let after = image.take(offset) + src + image.skip(offset + src.len());
    assert(after.subrange(offset, offset + src.len()) =~= src);
}

/// The reported range starts and ends at differing bytes, and the images agree
/// on every common index outside it.
pub proof fn lemma_first_diff_range(a: Seq<u8>, b: Seq<u8>)
    ensures
        spec_first_diff_range(a, b) matches Some((s, e)) ==> {
            &&& 0 <= s < e <= common_len(a, b)
            &&& a[s] != b[s] && a[e - 1] != b[e - 1]
            &&& agree(a, b, 0, s)
            &&& agree(a, b, e, common_len(a, b))
        },
        spec_first_diff_range(a, b) is None ==> agree(a, b, 0, common_len(a, b)),
{
    let len = common_len(a, b);
    if !agree(a, b, 0, len) {
        let w = choose|i: int| 0 <= i < len && a[i] != b[i];
        lemma_least_diff(a, b, len, w);
        lemma_greatest_diff(a, b, len, w);
        let s = choose|s: int| 0 <= s < len && a[s] != b[s] && agree(a, b, 0, s);
        let l = choose|l: int| 0 <= l < len && a[l] != b[l] && agree(a, b, l + 1, len);
        if l < s {
            assert(a[l] == b[l]);
        }
    }
}

proof fn lemma_least_diff(a: Seq<u8>, b: Seq<u8>, len: int, w: int)
    requires
        0 <= w < len,
        len <= a.len(),
        len <= b.len(),
        a[w] != b[w],
    ensures
        exists|s: int| 0 <= s < len && a[s] != b[s] && agree(a, b, 0, s),
    decreases w,
{
    if !agree(a, b, 0, w) {
        let k = choose|k: int| 0 <= k < w && a[k] != b[k];
        lemma_least_diff(a, b, len, k);
    } else {
        assert(0 <= w < len && a[w] != b[w] && agree(a, b, 0, w));
    }
}

proof fn lemma_greatest_diff(a: Seq<u8>, b: Seq<u8>, len: int, w: int)
    requires
        0 <= w < len,
        len <= a.len(),
        len <= b.len(),
        a[w] != b[w],
    ensures
        exists|l: int| 0 <= l < len && a[l] != b[l] && agree(a, b, l + 1, len),
    decreases len - w,
{
    if !agree(a, b, w + 1, len) {
        let k = choose|k: int| w + 1 <= k < len && a[k] != b[k];
        lemma_greatest_diff(a, b, len, k);
    } else {
        assert(0 <= w < len && a[w] != b[w] && agree(a, b, w + 1, len));
    }
}

} // verus!
