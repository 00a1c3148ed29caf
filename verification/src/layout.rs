//! What `commit` produces: the physical pages of the tree and where each one stands.
//!
//! Every node of the three table levels and the top-level table itself takes one page of
//! 4096 bytes. Pages are numbered in the order of a depth-first walk that visits a node
//! before its children and the children in slot order; the page with number `k` stands at
//! physical address `4096 * k`. A page holds 512 little-endian 64-bit words: word `i` is 0
//! where slot `i` is vacant, and else the address of the child's page or-ed with the
//! child's flags. In the page of an innermost table, word `i` is the address of the leaf
//! entry or-ed with its flags.

use crate::model::{PageTableView, PdView, PdptView, PtView};
use vstd::prelude::*;

verus! {

/// A memory image: the bytes of each page by its physical address.
pub type Image = Map<u64, Seq<u8>>;

/// Byte `k` of the little-endian encoding of `w`, for `k` from 0 to 7.
pub open spec fn le_byte(w: u64, k: nat) -> u8 {
    ((w >> ((8 * k) as u64)) & 0xff) as u8
}

/// The 4096 bytes of a page that holds the 512 words `words`, each in little-endian order.
pub open spec fn page_bytes(words: Seq<u64>) -> Seq<u8> {
    Seq::new(4096, |i: int| le_byte(words[i / 8], (i % 8) as nat))
}

/// A page of 4096 zero bytes.
pub open spec fn blank_page() -> Seq<u8> {
    Seq::new(4096, |i: int| 0u8)
}

/// The bytes of a page after word `idx` is replaced by `w`.
pub open spec fn with_word(bytes: Seq<u8>, idx: int, w: u64) -> Seq<u8> {
    Seq::new(
        bytes.len(),
        |i: int|
            if i / 8 == idx {
                le_byte(w, (i % 8) as nat)
            } else {
                bytes[i]
            },
    )
}

/// The first `n` of the words `words`, followed by zeros up to 512 words.
pub open spec fn first_words(words: Seq<u64>, n: int) -> Seq<u64> {
    Seq::new(
        512,
        |i: int|
            if i < n {
                words[i]
            } else {
                0
            },
    )
}

/// The sum of the first `n` of `sizes`.
pub open spec fn sum_upto(sizes: Seq<nat>, n: int) -> nat
    decreases n,
{
    if n <= 0 {
        0
    } else {
        sum_upto(sizes, n - 1) + sizes[n - 1]
    }
}

/// The address of the page of the child in slot `i` of a node whose own page stands at
/// `base` and whose children take `sizes` pages: the pages of the node itself and of the
/// children in the slots before `i` come first.
pub open spec fn child_base(base: u64, sizes: Seq<nat>, i: int) -> u64 {
    (base + 0x1000 * (1 + sum_upto(sizes, i))) as u64
}

/// The images of the first `n` children of a node, taken together.
pub open spec fn union_upto(images: Seq<Image>, n: int) -> Image
    decreases n,
{
    if n <= 0 {
        Map::empty()
    } else {
        union_upto(images, n - 1).union_prefer_right(images[n - 1])
    }
}

/// The addresses of `n` consecutive pages from `base` on.
pub open spec fn page_range(base: u64, n: nat) -> Set<u64> {
    Set::new(|a: u64| base <= a < base + 0x1000 * n && (a - base) % 0x1000 == 0)
}

impl PtView {
    /// The number of pages of the subtree: the table's own.
    pub open spec fn page_count(self) -> nat {
        1
    }

    /// The words of the table's page.
    pub open spec fn words(self) -> Seq<u64> {
        Seq::new(
            512,
            |i: int|
                match self.ptes[i] {
                    Some(e) => e.paddr | e.flags,
                    None => 0,
                },
        )
    }

    /// The pages of the subtree when the table's own page stands at `base`.
    pub open spec fn image(self, base: u64) -> Image {
        Map::empty().insert(base, page_bytes(self.words()))
    }
}

impl PdView {
    /// The number of pages that the child in each slot takes.
    pub open spec fn sizes(self) -> Seq<nat> {
        Seq::new(
            512,
            |i: int|
                match self.pts[i] {
                    Some(t) => t.page_count(),
                    None => 0,
                },
        )
    }

    /// The number of pages of the subtree: the directory's own and those of its children.
    pub open spec fn page_count(self) -> nat {
        1 + sum_upto(self.sizes(), 512)
    }

    /// The words of the directory's page when it stands at `base`.
    pub open spec fn words(self, base: u64) -> Seq<u64> {
        Seq::new(
            512,
            |i: int|
                match self.pts[i] {
                    Some(t) => child_base(base, self.sizes(), i) | t.flags,
                    None => 0,
                },
        )
    }

    /// The pages of the subtree of each child when the directory's page stands at `base`.
    pub open spec fn images(self, base: u64) -> Seq<Image> {
        Seq::new(
            512,
            |i: int|
                match self.pts[i] {
                    Some(t) => t.image(child_base(base, self.sizes(), i)),
                    None => Map::empty(),
                },
        )
    }

    /// The pages of the subtree when the directory's own page stands at `base`.
    pub open spec fn image(self, base: u64) -> Image {
        union_upto(self.images(base), 512).insert(base, page_bytes(self.words(base)))
    }
}

impl PdptView {
    /// The number of pages that the child in each slot takes.
    pub open spec fn sizes(self) -> Seq<nat> {
        Seq::new(
            512,
            |i: int|
                match self.pds[i] {
                    Some(d) => d.page_count(),
                    None => 0,
                },
        )
    }

    /// The number of pages of the subtree: the table's own and those of its children.
    pub open spec fn page_count(self) -> nat {
        1 + sum_upto(self.sizes(), 512)
    }

    /// The words of the table's page when it stands at `base`.
    pub open spec fn words(self, base: u64) -> Seq<u64> {
        Seq::new(
            512,
            |i: int|
                match self.pds[i] {
                    Some(d) => child_base(base, self.sizes(), i) | d.flags,
                    None => 0,
                },
        )
    }

    /// The pages of the subtree of each child when the table's page stands at `base`.
    pub open spec fn images(self, base: u64) -> Seq<Image> {
        Seq::new(
            512,
            |i: int|
                match self.pds[i] {
                    Some(d) => d.image(child_base(base, self.sizes(), i)),
                    None => Map::empty(),
                },
        )
    }

    /// The pages of the subtree when the table's own page stands at `base`.
    pub open spec fn image(self, base: u64) -> Image {
        union_upto(self.images(base), 512).insert(base, page_bytes(self.words(base)))
    }
}

impl PageTableView {
    /// The number of pages that the child in each slot takes.
    pub open spec fn sizes(self) -> Seq<nat> {
        Seq::new(
            512,
            |i: int|
                match self.pdpts[i] {
                    Some(p) => p.page_count(),
                    None => 0,
                },
        )
    }

    /// The number of pages of the tree: one for each node of its four levels.
    pub open spec fn page_count(self) -> nat {
        1 + sum_upto(self.sizes(), 512)
    }

    /// The words of the top-level page, which stands at address 0.
    pub open spec fn words(self) -> Seq<u64> {
        Seq::new(
            512,
            |i: int|
                match self.pdpts[i] {
                    Some(p) => child_base(0, self.sizes(), i) | p.flags,
                    None => 0,
                },
        )
    }

    /// The pages of the subtree of each child.
    pub open spec fn images(self) -> Seq<Image> {
        Seq::new(
            512,
            |i: int|
                match self.pdpts[i] {
                    Some(p) => p.image(child_base(0, self.sizes(), i)),
                    None => Map::empty(),
                },
        )
    }

    /// The pages of the whole tree, the top-level page at address 0.
    pub open spec fn image(self) -> Image {
        union_upto(self.images(), 512).insert(0, page_bytes(self.words()))
    }
}

/// The sum of the first sizes grows with their number.
pub proof fn lemma_sum_upto_mono(sizes: Seq<nat>, i: int, j: int)
    requires
        i <= j,
    ensures
        sum_upto(sizes, i) <= sum_upto(sizes, j),
    decreases j - i,
{
    if i < j {
        lemma_sum_upto_mono(sizes, i, j - 1);
    }
}

/// Where none of the first `n` sizes is over `b`, their sum is not over `n * b`.
pub proof fn lemma_sum_upto_bound(sizes: Seq<nat>, n: int, b: nat)
    requires
        0 <= n <= sizes.len(),
        forall|i: int| 0 <= i < n ==> sizes[i] <= b,
    ensures
        sum_upto(sizes, n) <= n * b,
    decreases n,
{
    if n > 0 {
        lemma_sum_upto_bound(sizes, n - 1, b);
        assert((n - 1) * b + b == n * b) by (nonlinear_arith);
    }
}

impl PdView {
    /// A directory takes at most 513 pages.
    pub proof fn lemma_page_count_bound(self)
        requires
            self.wf(),
        ensures
            self.page_count() <= 513,
    {
        lemma_sum_upto_bound(self.sizes(), 512, 1);
    }
}

impl PdptView {
    /// A directory-pointer table takes at most 262657 pages.
    pub proof fn lemma_page_count_bound(self)
        requires
            self.wf(),
        ensures
            self.page_count() <= 262657,
    {
        assert forall|i: int| 0 <= i < 512 implies self.sizes()[i] <= 513 by {
            if let Some(d) = self.pds[i] {
                d.lemma_page_count_bound();
            }
        }
        lemma_sum_upto_bound(self.sizes(), 512, 513);
    }
}

impl PageTableView {
    /// A tree takes at most 134480385 pages.
    pub proof fn lemma_page_count_bound(self)
        requires
            self.wf(),
        ensures
            self.page_count() <= 134480385,
    {
        assert forall|i: int| 0 <= i < 512 implies self.sizes()[i] <= 262657 by {
            if let Some(p) = self.pdpts[i] {
                p.lemma_page_count_bound();
            }
        }
        lemma_sum_upto_bound(self.sizes(), 512, 262657);
    }
}

/// A byte of the encoding of zero is zero.
pub proof fn lemma_le_byte_zero(k: nat)
    requires
        k < 8,
    ensures
        le_byte(0, k) == 0,
{
    let s = (8 * k) as u64;
    assert(((0u64 >> s) & 0xff) as u8 == 0) by (bit_vector);
}

/// A page of zero words is a page of zero bytes.
pub proof fn lemma_blank_page(words: Seq<u64>)
    ensures
        page_bytes(first_words(words, 0)) == blank_page(),
{
    assert forall|i: int| 0 <= i < 4096 implies page_bytes(first_words(words, 0))[i] == 0u8 by {
        lemma_le_byte_zero((i % 8) as nat);
    }
    assert(page_bytes(first_words(words, 0)) =~= blank_page());
}

/// Replacing word `idx` of a page takes it from its first `idx` words to its first
/// `idx + 1` words.
pub proof fn lemma_next_word(words: Seq<u64>, idx: int)
    requires
        0 <= idx < 512,
    ensures
        with_word(page_bytes(first_words(words, idx)), idx, words[idx]) == page_bytes(
            first_words(words, idx + 1),
        ),
        words[idx] == 0 ==> page_bytes(first_words(words, idx)) == page_bytes(
            first_words(words, idx + 1),
        ),
{
    assert(with_word(page_bytes(first_words(words, idx)), idx, words[idx]) =~= page_bytes(
        first_words(words, idx + 1),
    ));
    if words[idx] == 0 {
        assert(first_words(words, idx) =~= first_words(words, idx + 1));
    }
}

/// Words that are zero from `i` up to `j` change nothing between the first `i` and the
/// first `j` words.
pub proof fn lemma_vacant_words(words: Seq<u64>, i: int, j: int)
    requires
        0 <= i <= j <= 512,
        forall|k: int| i <= k < j ==> words[k] == 0,
    ensures
        first_words(words, i) == first_words(words, j),
{
    assert(first_words(words, i) =~= first_words(words, j));
}

/// Sizes that are zero from `i` up to `j` add nothing to the sum.
pub proof fn lemma_vacant_sizes(sizes: Seq<nat>, i: int, j: int)
    requires
        0 <= i <= j,
        forall|k: int| i <= k < j ==> sizes[k] == 0,
    ensures
        sum_upto(sizes, i) == sum_upto(sizes, j),
    decreases j - i,
{
    if i < j {
        lemma_vacant_sizes(sizes, i, j - 1);
    }
}

/// Images that are empty from `i` up to `j` add nothing to the images taken together.
pub proof fn lemma_vacant_images(images: Seq<Image>, i: int, j: int)
    requires
        0 <= i <= j,
        forall|k: int| i <= k < j ==> images[k] == Map::<u64, Seq<u8>>::empty(),
    ensures
        union_upto(images, i) == union_upto(images, j),
    decreases j - i,
{
    if i < j {
        lemma_vacant_images(images, i, j - 1);
        assert(union_upto(images, j) =~= union_upto(images, j - 1));
    }
}

/// The first 512 words of a page of 512 words are the page.
pub proof fn lemma_all_words(words: Seq<u64>)
    requires
        words.len() == 512,
    ensures
        first_words(words, 512) == words,
{
    assert(first_words(words, 512) =~= words);
}

/// A run of pages followed by another is one run.
pub proof fn lemma_page_range_append(base: u64, m: nat, k: nat)
    requires
        base + 0x1000 * (m + k) <= u64::MAX,
    ensures
        page_range(base, m).union(page_range((base + 0x1000 * m) as u64, k)) == page_range(
            base,
            m + k,
        ),
{
    let mid = (base + 0x1000 * m) as u64;
    assert forall|a: u64|
        page_range(base, m).union(page_range(mid, k)).contains(a) == page_range(
            base,
            m + k,
        ).contains(a) by {
        if a >= mid {
            assert((a - base) == (a - mid) + 0x1000 * m);
        }
    }
    assert(page_range(base, m).union(page_range(mid, k)) =~= page_range(base, m + k));
}

/// A run of `n` pages has `n` addresses.
pub proof fn lemma_page_range_len(base: u64, n: nat)
    requires
        base + 0x1000 * n <= u64::MAX,
    ensures
        page_range(base, n).finite(),
        page_range(base, n).len() == n,
    decreases n,
{
    if n == 0 {
        assert(page_range(base, n) =~= Set::empty());
    } else {
        let last = (base + 0x1000 * (n - 1)) as u64;
        lemma_page_range_len(base, (n - 1) as nat);
        assert(page_range(base, n) =~= page_range(base, (n - 1) as nat).insert(last));
    }
}

/// Where the image of each of the first `n` children covers the run of pages that its size
/// gives it, the images together cover the run after the node's own page.
pub proof fn lemma_union_upto_dom(images: Seq<Image>, sizes: Seq<nat>, base: u64, n: int)
    requires
        0 <= n <= 512,
        images.len() == 512,
        sizes.len() == 512,
        base + 0x1000 * (1 + sum_upto(sizes, n)) <= u64::MAX,
        forall|i: int|
            0 <= i < n ==> (#[trigger] images[i]).dom() == page_range(
                child_base(base, sizes, i),
                sizes[i],
            ),
    ensures
        union_upto(images, n).dom() == page_range((base + 0x1000) as u64, sum_upto(sizes, n)),
    decreases n,
{
    let first = (base + 0x1000) as u64;
    if n == 0 {
        assert(union_upto(images, n).dom() =~= page_range(first, 0));
    } else {
        lemma_union_upto_dom(images, sizes, base, n - 1);
        lemma_page_range_append(first, sum_upto(sizes, n - 1), sizes[n - 1]);
        assert(images[n - 1].dom() == page_range(child_base(base, sizes, n - 1), sizes[n - 1]));
        assert(union_upto(images, n).dom() =~= union_upto(images, n - 1).dom().union(
            images[n - 1].dom(),
        ));
    }
}

/// Where the image of each of the first `n` children covers the run of pages that its size
/// gives it, every page of the child in slot `i` stands unchanged in the images taken
/// together: no later child lays a page over it.
pub proof fn lemma_union_upto_holds(
    images: Seq<Image>,
    sizes: Seq<nat>,
    base: u64,
    n: int,
    i: int,
)
    requires
        0 <= i < n <= 512,
        images.len() == 512,
        sizes.len() == 512,
        base + 0x1000 * (1 + sum_upto(sizes, n)) <= u64::MAX,
        forall|k: int|
            0 <= k < n ==> (#[trigger] images[k]).dom() == page_range(
                child_base(base, sizes, k),
                sizes[k],
            ),
    ensures
        images[i].submap_of(union_upto(images, n)),
    decreases n,
{
    if i < n - 1 {
        lemma_union_upto_holds(images, sizes, base, n - 1, i);
        lemma_sum_upto_mono(sizes, i + 1, n - 1);
        assert(images[i].dom() == page_range(child_base(base, sizes, i), sizes[i]));
        assert(images[n - 1].dom() == page_range(child_base(base, sizes, n - 1), sizes[n - 1]));
        assert forall|a: u64| #[trigger] images[i].dom().contains(a) implies union_upto(
            images,
            n,
        ).dom().contains(a) && union_upto(images, n)[a] == images[i][a] by {
            assert(!images[n - 1].dom().contains(a));
        }
    }
}

impl PtView {
    /// The image of an innermost table is its one page.
    pub proof fn lemma_image_dom(self, base: u64)
        ensures
            self.image(base).dom() == page_range(base, self.page_count()),
    {
        assert(self.image(base).dom() =~= page_range(base, 1));
    }
}

impl PdView {
    /// The first page of the image is the node's own.
    pub proof fn lemma_own_page(self, base: u64)
        ensures
            self.image(base).dom().contains(base),
            self.image(base)[base] == page_bytes(self.words(base)),
    {
    }

    /// The image of each child covers the run of pages that its size gives it.
    pub proof fn lemma_children_dom(self, base: u64)
        requires
            self.wf(),
            base + 0x1000 * self.page_count() <= u64::MAX,
        ensures
            forall|i: int|
                0 <= i < 512 ==> (#[trigger] self.images(base)[i]).dom() == page_range(
                    child_base(base, self.sizes(), i),
                    self.sizes()[i],
                ),
    {
        let sizes = self.sizes();
        let images = self.images(base);
        assert forall|i: int| 0 <= i < 512 implies (#[trigger] images[i]).dom() == page_range(
            child_base(base, sizes, i),
            sizes[i],
        ) by {
            lemma_sum_upto_mono(sizes, i + 1, 512);
            match self.pts[i] {
                Some(c) => {
                    c.lemma_image_dom(child_base(base, sizes, i));
                },
                None => {
                    assert(images[i].dom() =~= page_range(child_base(base, sizes, i), 0));
                },
            }
        }
    }

    /// Every page of the subtree of the child in slot `i` stands in the image of the
    /// directory as it stands in the image of the child, and the first page of the image is
    /// the directory's own.
    pub proof fn lemma_image_holds(self, base: u64, i: int)
        requires
            self.wf(),
            base + 0x1000 * self.page_count() <= u64::MAX,
            0 <= i < 512,
            self.pts[i] is Some,
        ensures
            self.pts[i].unwrap().image(child_base(base, self.sizes(), i)).submap_of(
                self.image(base),
            ),
            self.image(base).dom().contains(base),
            self.image(base)[base] == page_bytes(self.words(base)),
    {
        let sizes = self.sizes();
        let images = self.images(base);
        self.lemma_children_dom(base);
        lemma_union_upto_holds(images, sizes, base, 512, i);
        lemma_sum_upto_mono(sizes, i, 512);
        let child = images[i];
        assert(child.dom() == page_range(child_base(base, sizes, i), sizes[i]));
        assert forall|a: u64| #[trigger] child.dom().contains(a) implies self.image(
            base,
        ).dom().contains(a) && self.image(base)[a] == child[a] by {
            assert(union_upto(images, 512).dom().contains(a));
            assert(a >= base + 0x1000);
        }
    }
}

impl PdptView {
    /// The first page of the image is the node's own.
    pub proof fn lemma_own_page(self, base: u64)
        ensures
            self.image(base).dom().contains(base),
            self.image(base)[base] == page_bytes(self.words(base)),
    {
    }

    /// The image of each child covers the run of pages that its size gives it.
    pub proof fn lemma_children_dom(self, base: u64)
        requires
            self.wf(),
            base + 0x1000 * self.page_count() <= u64::MAX,
        ensures
            forall|i: int|
                0 <= i < 512 ==> (#[trigger] self.images(base)[i]).dom() == page_range(
                    child_base(base, self.sizes(), i),
                    self.sizes()[i],
                ),
    {
        let sizes = self.sizes();
        let images = self.images(base);
        assert forall|i: int| 0 <= i < 512 implies (#[trigger] images[i]).dom() == page_range(
            child_base(base, sizes, i),
            sizes[i],
        ) by {
            lemma_sum_upto_mono(sizes, i + 1, 512);
            match self.pds[i] {
                Some(c) => {
                    c.lemma_image_dom(child_base(base, sizes, i));
                },
                None => {
                    assert(images[i].dom() =~= page_range(child_base(base, sizes, i), 0));
                },
            }
        }
    }

    /// Every page of the subtree of the child in slot `i` stands in the image of the table as it
    /// stands in the image of the child, and the first page of the image is the table's
    /// own.
    pub proof fn lemma_image_holds(self, base: u64, i: int)
        requires
            self.wf(),
            base + 0x1000 * self.page_count() <= u64::MAX,
            0 <= i < 512,
            self.pds[i] is Some,
        ensures
            self.pds[i].unwrap().image(child_base(base, self.sizes(), i)).submap_of(
                self.image(base),
            ),
            self.image(base).dom().contains(base),
            self.image(base)[base] == page_bytes(self.words(base)),
    {
        let sizes = self.sizes();
        let images = self.images(base);
        self.lemma_children_dom(base);
        lemma_union_upto_holds(images, sizes, base, 512, i);
        lemma_sum_upto_mono(sizes, i, 512);
        let child = images[i];
        assert(child.dom() == page_range(child_base(base, sizes, i), sizes[i]));
        assert forall|a: u64| #[trigger] child.dom().contains(a) implies self.image(
            base,
        ).dom().contains(a) && self.image(base)[a] == child[a] by {
            assert(union_upto(images, 512).dom().contains(a));
            assert(a >= base + 0x1000);
        }
    }
}

impl PageTableView {
    /// The image of each child covers the run of pages that its size gives it.
    pub proof fn lemma_children_dom(self)
        requires
            self.wf(),
        ensures
            forall|i: int|
                0 <= i < 512 ==> (#[trigger] self.images()[i]).dom() == page_range(
                    child_base(0, self.sizes(), i),
                    self.sizes()[i],
                ),
    {
        self.lemma_page_count_bound();
        let sizes = self.sizes();
        let images = self.images();
        assert forall|i: int| 0 <= i < 512 implies (#[trigger] images[i]).dom() == page_range(
            child_base(0, sizes, i),
            sizes[i],
        ) by {
            lemma_sum_upto_mono(sizes, i + 1, 512);
            match self.pdpts[i] {
                Some(c) => {
                    c.lemma_image_dom(child_base(0, sizes, i));
                },
                None => {
                    assert(images[i].dom() =~= page_range(child_base(0, sizes, i), 0));
                },
            }
        }
    }

    /// Every page of the subtree of the child in slot `i` stands in the image of the tree as it
    /// stands in the image of the child, and the first page of the image is the top-level table's
    /// own.
    pub proof fn lemma_image_holds(self, i: int)
        requires
            self.wf(),
            0 <= i < 512,
            self.pdpts[i] is Some,
        ensures
            self.pdpts[i].unwrap().image(child_base(0, self.sizes(), i)).submap_of(
                self.image(),
            ),
            self.image().dom().contains(0),
            self.image()[0] == page_bytes(self.words()),
    {
        self.lemma_page_count_bound();
        let sizes = self.sizes();
        let images = self.images();
        self.lemma_children_dom();
        lemma_union_upto_holds(images, sizes, 0, 512, i);
        lemma_sum_upto_mono(sizes, i, 512);
        let child = images[i];
        assert(child.dom() == page_range(child_base(0, sizes, i), sizes[i]));
        assert forall|a: u64| #[trigger]
            child.dom().contains(a) implies self.image().dom().contains(a) && self.image()[a]
            == child[a] by {
            assert(union_upto(images, 512).dom().contains(a));
            assert(a >= 0 + 0x1000);
        }
    }
}

impl PdView {
    /// The image of a directory covers the run of pages from its own on, one for each node.
    pub proof fn lemma_image_dom(self, base: u64)
        requires
            self.wf(),
            base + 0x1000 * self.page_count() <= u64::MAX,
        ensures
            self.image(base).dom() == page_range(base, self.page_count()),
    {
        let sizes = self.sizes();
        let images = self.images(base);
        self.lemma_children_dom(base);
        lemma_union_upto_dom(images, sizes, base, 512);
        lemma_page_range_append(base, 1, sum_upto(sizes, 512));
        assert(self.image(base).dom() =~= page_range(base, 1).union(
            union_upto(images, 512).dom(),
        ));
    }
}

impl PdptView {
    /// The image of a directory-pointer table covers the run of pages from its own on, one
    /// for each node.
    pub proof fn lemma_image_dom(self, base: u64)
        requires
            self.wf(),
            base + 0x1000 * self.page_count() <= u64::MAX,
        ensures
            self.image(base).dom() == page_range(base, self.page_count()),
    {
        let sizes = self.sizes();
        let images = self.images(base);
        self.lemma_children_dom(base);
        lemma_union_upto_dom(images, sizes, base, 512);
        lemma_page_range_append(base, 1, sum_upto(sizes, 512));
        assert(self.image(base).dom() =~= page_range(base, 1).union(
            union_upto(images, 512).dom(),
        ));
    }
}

impl PageTableView {
    /// The image of a tree covers the addresses 0, 4096, 8192 and so on, one for each node
    /// of the tree, and no other.
    pub proof fn lemma_image_dom(self)
        requires
            self.wf(),
        ensures
            self.image().dom() == page_range(0, self.page_count()),
            self.image().dom().finite(),
            self.image().dom().len() == self.page_count(),
    {
        self.lemma_page_count_bound();
        let sizes = self.sizes();
        let images = self.images();
        self.lemma_children_dom();
        lemma_union_upto_dom(images, sizes, 0, 512);
        lemma_page_range_append(0, 1, sum_upto(sizes, 512));
        assert(self.image().dom() =~= page_range(0, 1).union(union_upto(images, 512).dom()));
        lemma_page_range_len(0, self.page_count());
    }
}

} // verus!
