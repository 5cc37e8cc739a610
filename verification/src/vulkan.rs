//! The renderer's decision logic: shader selection and cycling, the frame
//! ring, swapchain sizing, memory-type and queue-family selection, image
//! layout barriers and SPIR-V word decoding.

use vstd::prelude::*;

verus! {

/// The value of four bytes read as a little-endian 32-bit word.
pub open spec fn le_word(b0: u8, b1: u8, b2: u8, b3: u8) -> nat {
    b0 as nat + 256 * (b1 as nat) + 65536 * (b2 as nat) + 16777216 * (b3 as nat)
}

/// The little-endian 32-bit words of `bytes`, one per complete 4-byte chunk;
/// a trailing partial chunk is ignored.
pub open spec fn words_of(bytes: Seq<u8>) -> Seq<u32> {
    Seq::new(
        bytes.len() / 4,
        |i: int| le_word(bytes[4 * i], bytes[4 * i + 1], bytes[4 * i + 2], bytes[4 * i + 3]) as u32,
    )
}

/// The four bytes of `x`, least significant first (what `u32::to_le_bytes`
/// yields).
pub open spec fn word_le_bytes(x: u32) -> Seq<u8> {
    seq![
        (x % 256) as u8,
        ((x / 256) % 256) as u8,
        ((x / 65536) % 256) as u8,
        (x / 16777216) as u8,
    ]
}

/// The little-endian byte image of a sequence of words, concatenated.
pub open spec fn le_bytes_of(words: Seq<u32>) -> Seq<u8>
    decreases words.len(),
{
    if words.len() == 0 {
        Seq::empty()
    } else {
        le_bytes_of(words.drop_last()) + word_le_bytes(words.last())
    }
}

proof fn lemma_le_word_of_bytes(x: u32)
    ensures
        le_word(word_le_bytes(x)[0], word_le_bytes(x)[1], word_le_bytes(x)[2], word_le_bytes(x)[3]) == x,
{
    assert(x % 256 + 256 * ((x / 256) % 256) + 65536 * ((x / 65536) % 256) + 16777216 * (x / 16777216)
        == x) by (bit_vector);
    assert(x / 16777216 < 256) by (bit_vector);
}

proof fn lemma_le_bytes_len(words: Seq<u32>)
    ensures
        le_bytes_of(words).len() == 4 * words.len(),
    decreases words.len(),
{
    if words.len() > 0 {
        lemma_le_bytes_len(words.drop_last());
    }
}

/// Decoding is the inverse of encoding: the words decoded from the
/// little-endian bytes of any word sequence are exactly those words.
pub proof fn lemma_words_of_le_bytes(words: Seq<u32>)
    ensures
        words_of(le_bytes_of(words)) == words,
    decreases words.len(),
{
    lemma_le_bytes_len(words);
    if words.len() > 0 {
        let init = words.drop_last();
        lemma_words_of_le_bytes(init);
        lemma_le_bytes_len(init);
        let b = le_bytes_of(words);
        let bi = le_bytes_of(init);
        let n = words.len() as int;
        let last = word_le_bytes(words.last());
        assert(b == bi + last);
        assert forall|i: int| 0 <= i < n implies #[trigger] words_of(b)[i] == words[i] by {
            if i < n - 1 {
                assert(b[4 * i] == bi[4 * i]);
                assert(b[4 * i + 1] == bi[4 * i + 1]);
                assert(b[4 * i + 2] == bi[4 * i + 2]);
                assert(b[4 * i + 3] == bi[4 * i + 3]);
                assert(words_of(bi)[i] == init[i]);
            } else {
                assert(b[4 * i] == last[0]);
                assert(b[4 * i + 1] == last[1]);
                assert(b[4 * i + 2] == last[2]);
                assert(b[4 * i + 3] == last[3]);
                lemma_le_word_of_bytes(words.last());
            }
        }
        assert(words_of(b) =~= words);
    } else {
        assert(words_of(le_bytes_of(words)) =~= words);
    }
}

/// Decode a SPIR-V byte blob into little-endian `u32` words
/// (`chunks_exact(4)`: trailing bytes that do not fill a word are dropped).
pub fn to_u32s(bytes: &[u8]) -> (r: Vec<u32>)
    ensures
        r@ == words_of(bytes@),
        r@.len() == bytes@.len() / 4,
        forall|i: int|
            0 <= i < r@.len() ==> {
                &&& #[trigger] r@[i] % 256 == bytes@[4 * i]
                &&& (r@[i] / 256) % 256 == bytes@[4 * i + 1]
                &&& (r@[i] / 65536) % 256 == bytes@[4 * i + 2]
                &&& r@[i] / 16777216 == bytes@[4 * i + 3]
            },
{
    let len = bytes.len();
    let n = len / 4;
    let mut r: Vec<u32> = Vec::with_capacity(n);
    let mut i: usize = 0;
    while i < n
        invariant
            len == bytes@.len(),
            n == len / 4,
            i <= n,
            r@.len() == i,
            forall|j: int| 0 <= j < i ==> #[trigger] r@[j] == words_of(bytes@)[j],
        decreases n - i,
    {
        assert(4 * i + 4 <= bytes@.len()) by (nonlinear_arith)
            requires
                i < n,
                n == bytes@.len() / 4,
        ;
        let k = 4 * i;
        let w: u32 = bytes[k] as u32 + 256 * (bytes[k + 1] as u32) + 65536 * (bytes[k + 2] as u32)
            + 16777216 * (bytes[k + 3] as u32);
        r.push(w);
        i = i + 1;
    }
    assert(r@ =~= words_of(bytes@));
    assert forall|i: int| 0 <= i < r@.len() implies {
        &&& #[trigger] r@[i] % 256 == bytes@[4 * i]
        &&& (r@[i] / 256) % 256 == bytes@[4 * i + 1]
        &&& (r@[i] / 65536) % 256 == bytes@[4 * i + 2]
        &&& r@[i] / 16777216 == bytes@[4 * i + 3]
    } by {
        lemma_le_word_bytes(bytes@[4 * i], bytes@[4 * i + 1], bytes@[4 * i + 2], bytes@[4 * i + 3]);
    }
    r
}

/// The bytes of a little-endian word read back: the least significant byte
/// is the first one, the most significant the last.
proof fn lemma_le_word_bytes(b0: u8, b1: u8, b2: u8, b3: u8)
    ensures
        le_word(b0, b1, b2, b3) < 0x1_0000_0000,
        le_word(b0, b1, b2, b3) % 256 == b0,
        (le_word(b0, b1, b2, b3) / 256) % 256 == b1,
        (le_word(b0, b1, b2, b3) / 65536) % 256 == b2,
        le_word(b0, b1, b2, b3) / 16777216 == b3,
{
    let w = le_word(b0, b1, b2, b3);
    assert(w == b0 + 256 * (b1 + 256 * (b2 + 256 * (b3 as nat))));
    vstd::arithmetic::div_mod::lemma_fundamental_div_mod_converse(w as int, 256, (b1 + 256 * (b2 + 256
        * (b3 as nat))) as int, b0 as int);
    let w1 = b1 + 256 * (b2 + 256 * (b3 as nat));
    vstd::arithmetic::div_mod::lemma_fundamental_div_mod_converse(w1 as int, 256, (b2 + 256 * (b3 as nat)) as int, b1 as int);
    let w2 = b2 + 256 * (b3 as nat);
    vstd::arithmetic::div_mod::lemma_fundamental_div_mod_converse(w2 as int, 256, b3 as int, b2 as int);
    assert(w / 65536 == w1 / 256) by {
        vstd::arithmetic::div_mod::lemma_div_denominator(w as int, 256, 256);
    }
    assert(w / 16777216 == w2 / 256) by {
        vstd::arithmetic::div_mod::lemma_div_denominator(w as int, 256, 65536);
        vstd::arithmetic::div_mod::lemma_div_denominator(w1 as int, 256, 256);
    }
}

/// Whether memory type `i` is allowed by the resource's `type_bits` mask
/// and its property flags contain every flag of `flags`.
pub open spec fn memory_type_fits(property_flags: Seq<u32>, type_bits: u32, flags: u32, i: int) -> bool {
    &&& 0 <= i < property_flags.len()
    &&& type_bits & (1u32 << (i as u32)) != 0
    &&& property_flags[i] & flags == flags
}

/// What fitting means: memory type `i` fits exactly when it is one of the
/// device's types, the resource accepts it (bit `i` of `type_bits` is set),
/// and its property flags include every requested flag (a type that has
/// only some of them does not fit).
pub proof fn lemma_memory_type_fits_means(property_flags: Seq<u32>, type_bits: u32, flags: u32)
    ensures
        forall|i: int| #[trigger]
            memory_type_fits(property_flags, type_bits, flags, i) <==> (0 <= i < property_flags.len()
                && type_bits & (1u32 << (i as u32)) != 0 && property_flags[i] & flags == flags),
{
}

/// Pick the first memory type (by index) that the resource accepts and that
/// has all the requested property flags; `property_flags[i]` are the flags of
/// the device's memory type `i`.
pub fn find_memory_type(property_flags: &[u32], type_bits: u32, flags: u32) -> (r: Option<u32>)
    requires
        property_flags@.len() <= 32,
    ensures
        match r {
            Some(k) => {
                &&& memory_type_fits(property_flags@, type_bits, flags, k as int)
                &&& forall|j: int| 0 <= j < k ==> !memory_type_fits(property_flags@, type_bits, flags, j)
            },
            None => forall|j: int| 0 <= j < property_flags@.len() ==> !memory_type_fits(
                property_flags@,
                type_bits,
                flags,
                j,
            ),
        },
        r matches Some(k) ==> {
            &&& k < property_flags@.len()
            &&& property_flags@[k as int] & flags == flags
            &&& type_bits & (1u32 << k) != 0
        },
{
    proof { lemma_memory_type_fits_means(property_flags@, type_bits, flags); }
    let len = property_flags.len();
    let mut i: usize = 0;
    while i < len
        invariant
            len == property_flags@.len(),
            len <= 32,
            i <= len,
            forall|j: int| 0 <= j < i ==> !memory_type_fits(property_flags@, type_bits, flags, j),
        decreases len - i,
    {
        let bit: u32 = 1u32 << (i as u32);
        if (type_bits & bit) != 0 && (property_flags[i] & flags) == flags {
            return Some(i as u32);
        }
        i = i + 1;
    }
    None
}

/// The text of an error, as its `Display` writes it (used to turn the
/// graphics API's error codes into messages).
pub fn first_error<T: core::fmt::Display>(r: T) -> (s: String)
    ensures
        vstd::string::to_string_from_display_ensures::<T>(&r, s),
{
    r.to_string()
}

/// Number of frames kept in flight (command buffers and sync objects),
/// independent of the swapchain image count.
pub const MAX_FRAMES_IN_FLIGHT: usize = 2;

/// Names and visual genres of the warp shaders that have them.
pub open spec fn warp_names(idx: int) -> Option<(Seq<char>, Seq<char>)> {
    if idx == 13 {
        Some(("kaleido mandala"@, "sacred geometry"@))
    } else if idx == 14 {
        Some(("hex lattice"@, "geometric"@))
    } else if idx == 15 {
        Some(("crystal pillars"@, "crystalline"@))
    } else if idx == 16 {
        Some(("interference moiré"@, "optical"@))
    } else if idx == 17 {
        Some(("star mandala"@, "sacred geometry"@))
    } else if idx == 18 {
        Some(("infinite staircase"@, "surreal"@))
    } else if idx == 19 {
        Some(("lowpoly shards"@, "chromatic"@))
    } else {
        None
    }
}

/// The named warps by hand: shaders 13 to 19 carry these names and genres,
/// and no other index has any.
pub proof fn lemma_warp_names(idx: int)
    ensures
        warp_names(13) == Some(("kaleido mandala"@, "sacred geometry"@)),
        warp_names(14) == Some(("hex lattice"@, "geometric"@)),
        warp_names(15) == Some(("crystal pillars"@, "crystalline"@)),
        warp_names(16) == Some(("interference moiré"@, "optical"@)),
        warp_names(17) == Some(("star mandala"@, "sacred geometry"@)),
        warp_names(18) == Some(("infinite staircase"@, "surreal"@)),
        warp_names(19) == Some(("lowpoly shards"@, "chromatic"@)),
        !(13 <= idx <= 19) ==> warp_names(idx) is None,
{
}

/// The view of an optional `(name, genre)` pair of string slices.
pub open spec fn meta_view(m: Option<(&'static str, &'static str)>) -> Option<(Seq<char>, Seq<char>)> {
    match m {
        Some((name, genre)) => Some((name@, genre@)),
        None => None,
    }
}

/// Display metadata `(name, genre)` for the numbered warp shaders, indexed
/// like the pipeline array. The first 13 classic shaders (and any index past
/// the named ones) have none.
pub fn warp_meta(idx: usize) -> (r: Option<(&'static str, &'static str)>)
    ensures
        meta_view(r) == warp_names(idx as int),
        r is Some <==> 13 <= idx <= 19,
{
    match idx {
        13 => Some(("kaleido mandala", "sacred geometry")),
        14 => Some(("hex lattice", "geometric")),
        15 => Some(("crystal pillars", "crystalline")),
        16 => Some(("interference moiré", "optical")),
        17 => Some(("star mandala", "sacred geometry")),
        18 => Some(("infinite staircase", "surreal")),
        19 => Some(("lowpoly shards", "chromatic")),
        _ => None,
    }
}

/// `min_image_count + 1`, saturating at `u32::MAX`.
pub open spec fn one_more_image(min_image_count: u32) -> u32 {
    if min_image_count == u32::MAX { u32::MAX } else { (min_image_count + 1) as u32 }
}

/// Swapchain image count: one more than the surface minimum (saturating),
/// capped by the surface maximum when the surface has one (`max > 0`).
pub fn swapchain_image_count(min_image_count: u32, max_image_count: u32) -> (count: u32)
    ensures
        count == (if max_image_count > 0 && one_more_image(min_image_count) > max_image_count {
            max_image_count
        } else {
            one_more_image(min_image_count)
        }),
        max_image_count > 0 ==> count <= max_image_count,
        (max_image_count == 0 || min_image_count < max_image_count) && min_image_count < u32::MAX
            ==> count == min_image_count + 1,
        min_image_count == u32::MAX && max_image_count == 0 ==> count == u32::MAX,
{
    let mut count = min_image_count.saturating_add(1);
    if max_image_count > 0 && count > max_image_count {
        count = max_image_count;
    }
    count
}

/// The swapchain extent for a window of the given size: each side at least 1.
pub fn window_extent(width: u32, height: u32) -> (e: (u32, u32))
    ensures
        e.0 == (if width >= 1 { width } else { 1 }),
        e.1 == (if height >= 1 { height } else { 1 }),
{
    (if width >= 1 { width } else { 1 }, if height >= 1 { height } else { 1 })
}

/// The extent to create the swapchain with: the surface's current extent,
/// unless the surface leaves it to the application (width `u32::MAX`), in
/// which case the window's size (each side at least 1).
pub fn swapchain_extent(current_width: u32, current_height: u32, window_width: u32, window_height: u32) -> (e: (
    u32,
    u32,
))
    ensures
        current_width != u32::MAX ==> e == (current_width, current_height),
        current_width == u32::MAX ==> e == (
            if window_width >= 1 { window_width } else { 1 },
            if window_height >= 1 { window_height } else { 1 },
        ),
{
    if current_width != u32::MAX {
        (current_width, current_height)
    } else {
        window_extent(window_width, window_height)
    }
}

/// On a resize: the new extent (the window's size, each side at least 1),
/// or `None` when it equals the current swapchain extent and nothing is to
/// be rebuilt.
pub fn resize_target(window_width: u32, window_height: u32, current: (u32, u32)) -> (r: Option<(u32, u32)>)
    ensures
        ({
            let e = (
                if window_width >= 1 { window_width } else { 1 },
                if window_height >= 1 { window_height } else { 1 },
            );
            r == if e == current { None } else { Some(e) }
        }),
{
    let e = window_extent(window_width, window_height);
    if e.0 == current.0 && e.1 == current.1 {
        None
    } else {
        Some(e)
    }
}

/// `preferred` if the surface offers it, else `fallback` (used for the
/// surface format, falling back to the first offered one, and for the
/// present mode, preferring mailbox over FIFO).
pub fn choose_preferred(offered: &[i32], preferred: i32, fallback: i32) -> (r: i32)
    ensures
        r == (if offered@.contains(preferred) { preferred } else { fallback }),
{
    let len = offered.len();
    let mut i: usize = 0;
    while i < len
        invariant
            len == offered@.len(),
            i <= len,
            forall|j: int| 0 <= j < i ==> offered@[j] != preferred,
        decreases len - i,
    {
        if offered[i] == preferred {
            assert(offered@[i as int] == preferred);
            return preferred;
        }
        i = i + 1;
    }
    fallback
}

/// Whether queue family `i` supports graphics (`graphics` is the graphics
/// capability bit) and can present to the surface.
pub open spec fn queue_family_fits(queue_flags: Seq<u32>, present: Seq<bool>, graphics: u32, i: int) -> bool {
    &&& 0 <= i < queue_flags.len()
    &&& queue_flags[i] & graphics == graphics
    &&& present[i]
}

/// The first queue family that can both draw and present, if any.
pub fn find_queue_family(queue_flags: &[u32], present: &[bool], graphics: u32) -> (r: Option<u32>)
    requires
        queue_flags@.len() == present@.len(),
        queue_flags@.len() <= u32::MAX,
    ensures
        match r {
            Some(k) => {
                &&& queue_family_fits(queue_flags@, present@, graphics, k as int)
                &&& forall|j: int| 0 <= j < k ==> !queue_family_fits(queue_flags@, present@, graphics, j)
            },
            None => forall|j: int| 0 <= j < queue_flags@.len() ==> !queue_family_fits(
                queue_flags@,
                present@,
                graphics,
                j,
            ),
        },
        r matches Some(k) ==> {
            &&& k < queue_flags@.len()
            &&& queue_flags@[k as int] & graphics == graphics
            &&& present@[k as int]
        },
        r is None ==> forall|j: int|
            0 <= j < queue_flags@.len() && #[trigger] present@[j] ==> queue_flags@[j] & graphics != graphics,
{
    let len = queue_flags.len();
    let mut i: usize = 0;
    while i < len
        invariant
            len == queue_flags@.len(),
            len == present@.len(),
            len <= u32::MAX,
            i <= len,
            forall|j: int| 0 <= j < i ==> !queue_family_fits(queue_flags@, present@, graphics, j),
        decreases len - i,
    {
        if (queue_flags[i] & graphics) == graphics && present[i] {
            return Some(i as u32);
        }
        i = i + 1;
    }
    assert forall|j: int| 0 <= j < queue_flags@.len() && #[trigger] present@[j] implies queue_flags@[j] & graphics
        != graphics by {
        assert(!queue_family_fits(queue_flags@, present@, graphics, j));
    }
    None
}

/// Image layouts that the renderer transitions between.
#[derive(Clone, Copy, PartialEq, Eq, Debug, Structural)]
pub enum ImageLayout {
    Undefined,
    TransferDstOptimal,
    TransferSrcOptimal,
    ShaderReadOnlyOptimal,
    PresentSrc,
    /// Any other layout.
    Other,
}

/// Memory access kinds of an image barrier.
#[derive(Clone, Copy, PartialEq, Eq, Debug, Structural)]
pub enum Access {
    /// No access.
    Empty,
    TransferWrite,
    TransferRead,
    ShaderRead,
    MemoryRead,
}

/// The source and destination access masks of a layout transition.
pub open spec fn transition_masks(old: ImageLayout, new: ImageLayout) -> (Access, Access) {
    match (old, new) {
        (ImageLayout::Undefined, ImageLayout::TransferDstOptimal) => (Access::Empty, Access::TransferWrite),
        (ImageLayout::Undefined, ImageLayout::ShaderReadOnlyOptimal) => (Access::Empty, Access::ShaderRead),
        (ImageLayout::PresentSrc, ImageLayout::TransferSrcOptimal) => (Access::MemoryRead, Access::TransferRead),
        (ImageLayout::TransferSrcOptimal, ImageLayout::PresentSrc) => (Access::TransferRead, Access::MemoryRead),
        (ImageLayout::TransferDstOptimal, ImageLayout::ShaderReadOnlyOptimal) => (Access::TransferWrite, Access::ShaderRead),
        (ImageLayout::ShaderReadOnlyOptimal, ImageLayout::TransferDstOptimal) => (Access::ShaderRead, Access::TransferWrite),
        (ImageLayout::ShaderReadOnlyOptimal, ImageLayout::TransferSrcOptimal) => (Access::ShaderRead, Access::TransferRead),
        (ImageLayout::TransferSrcOptimal, ImageLayout::ShaderReadOnlyOptimal) => (Access::TransferRead, Access::ShaderRead),
        _ => (Access::Empty, Access::Empty),
    }
}

/// The `(src, dst)` access masks of the barrier that moves an image from
/// layout `old` to layout `new`.
pub fn transition_access(old: ImageLayout, new: ImageLayout) -> (r: (Access, Access))
    ensures
        r == transition_masks(old, new),
{
    match (old, new) {
        (ImageLayout::Undefined, ImageLayout::TransferDstOptimal) => (Access::Empty, Access::TransferWrite),
        (ImageLayout::Undefined, ImageLayout::ShaderReadOnlyOptimal) => (Access::Empty, Access::ShaderRead),
        (ImageLayout::PresentSrc, ImageLayout::TransferSrcOptimal) => (Access::MemoryRead, Access::TransferRead),
        (ImageLayout::TransferSrcOptimal, ImageLayout::PresentSrc) => (Access::TransferRead, Access::MemoryRead),
        (ImageLayout::TransferDstOptimal, ImageLayout::ShaderReadOnlyOptimal) => (Access::TransferWrite, Access::ShaderRead),
        (ImageLayout::ShaderReadOnlyOptimal, ImageLayout::TransferDstOptimal) => (Access::ShaderRead, Access::TransferWrite),
        (ImageLayout::ShaderReadOnlyOptimal, ImageLayout::TransferSrcOptimal) => (Access::ShaderRead, Access::TransferRead),
        (ImageLayout::TransferSrcOptimal, ImageLayout::ShaderReadOnlyOptimal) => (Access::TransferRead, Access::ShaderRead),
        _ => (Access::Empty, Access::Empty),
    }
}

/// The barrier masks by hand: each transition the renderer records waits on
/// the access its old layout was used for and blocks the access its new
/// layout is for; any other transition has no masks.
pub proof fn lemma_transition_table(old: ImageLayout, new: ImageLayout)
    ensures
        transition_masks(ImageLayout::Undefined, ImageLayout::TransferDstOptimal) == (Access::Empty, Access::TransferWrite),
        transition_masks(ImageLayout::Undefined, ImageLayout::ShaderReadOnlyOptimal) == (Access::Empty, Access::ShaderRead),
        transition_masks(ImageLayout::PresentSrc, ImageLayout::TransferSrcOptimal) == (Access::MemoryRead, Access::TransferRead),
        transition_masks(ImageLayout::TransferSrcOptimal, ImageLayout::PresentSrc) == (Access::TransferRead, Access::MemoryRead),
        transition_masks(ImageLayout::TransferDstOptimal, ImageLayout::ShaderReadOnlyOptimal) == (Access::TransferWrite, Access::ShaderRead),
        transition_masks(ImageLayout::ShaderReadOnlyOptimal, ImageLayout::TransferDstOptimal) == (Access::ShaderRead, Access::TransferWrite),
        transition_masks(ImageLayout::ShaderReadOnlyOptimal, ImageLayout::TransferSrcOptimal) == (Access::ShaderRead, Access::TransferRead),
        transition_masks(ImageLayout::TransferSrcOptimal, ImageLayout::ShaderReadOnlyOptimal) == (Access::TransferRead, Access::ShaderRead),
        old == ImageLayout::Other || new == ImageLayout::Other || old == new ==> transition_masks(old, new) == (Access::Empty, Access::Empty),
        new == ImageLayout::Undefined ==> transition_masks(old, new) == (Access::Empty, Access::Empty),
{
}

/// A transition out of `Undefined` waits on no prior access; and between
/// defined layouts, the barrier that goes back mirrors the one that went
/// there (its source access is the other's destination access, and the
/// reverse).
pub proof fn lemma_transition_masks_mirror(old: ImageLayout, new: ImageLayout)
    ensures
        old == ImageLayout::Undefined ==> transition_masks(old, new).0 == Access::Empty,
        old != ImageLayout::Undefined && new != ImageLayout::Undefined ==> transition_masks(new, old) == (
            transition_masks(old, new).1,
            transition_masks(old, new).0,
        ),
{
}

/// The images a frame works on.
#[derive(Clone, Copy, PartialEq, Eq, Debug, Structural)]
pub enum FrameImage {
    /// The feedback texture: the previous frame, sampled by the warp shader.
    Feedback,
    /// The frozen pre-switch copy sampled for the warp crossfade.
    Frozen,
    /// The acquired swapchain image.
    Swapchain,
}

/// One step of a frame's command recording.
#[derive(Clone, Copy, PartialEq, Eq, Debug, Structural)]
pub enum FrameOp {
    /// A layout transition barrier on an image (from, to).
    Barrier(FrameImage, ImageLayout, ImageLayout),
    /// Copy (blit) the first image into the second.
    Blit(FrameImage, FrameImage),
    /// The render pass: the warp shader samples the feedback and frozen
    /// images and draws into the swapchain image, leaving it presentable.
    Draw,
}

/// The layouts of the frame's three images.
#[derive(Clone, Copy, PartialEq, Eq, Debug, Structural)]
pub struct FrameLayouts {
    pub feedback: ImageLayout,
    pub frozen: ImageLayout,
    pub swapchain: ImageLayout,
}

/// The layout of `img`.
pub open spec fn layout_of(l: FrameLayouts, img: FrameImage) -> ImageLayout {
    match img {
        FrameImage::Feedback => l.feedback,
        FrameImage::Frozen => l.frozen,
        FrameImage::Swapchain => l.swapchain,
    }
}

/// `l` with `img` moved to `layout`.
pub open spec fn with_layout(l: FrameLayouts, img: FrameImage, layout: ImageLayout) -> FrameLayouts {
    match img {
        FrameImage::Feedback => FrameLayouts { feedback: layout, ..l },
        FrameImage::Frozen => FrameLayouts { frozen: layout, ..l },
        FrameImage::Swapchain => FrameLayouts { swapchain: layout, ..l },
    }
}

/// The effect of one step on the images' layouts, or `None` when the step
/// is not valid there: a barrier must start from the image's current
/// layout; a blit needs its source in the transfer-source layout and its
/// (other) destination in the transfer-destination layout; drawing needs
/// both sampled images readable by shaders.
pub open spec fn step_layouts(l: Option<FrameLayouts>, op: FrameOp) -> Option<FrameLayouts> {
    match l {
        None => None,
        Some(l) => match op {
            FrameOp::Barrier(img, from, to) => if layout_of(l, img) == from {
                Some(with_layout(l, img, to))
            } else {
                None
            },
            FrameOp::Blit(src, dst) => if src != dst && layout_of(l, src) == ImageLayout::TransferSrcOptimal
                && layout_of(l, dst) == ImageLayout::TransferDstOptimal {
                Some(l)
            } else {
                None
            },
            FrameOp::Draw => if l.feedback == ImageLayout::ShaderReadOnlyOptimal && l.frozen
                == ImageLayout::ShaderReadOnlyOptimal {
                Some(FrameLayouts { swapchain: ImageLayout::PresentSrc, ..l })
            } else {
                None
            },
        },
    }
}

/// The layouts after the steps `ops[k..]`, starting from `l`.
pub open spec fn run_ops(ops: Seq<FrameOp>, k: nat, l: Option<FrameLayouts>) -> Option<FrameLayouts>
    decreases ops.len() - k,
{
    if k >= ops.len() {
        l
    } else {
        run_ops(ops, k + 1, step_layouts(l, ops[k as int]))
    }
}

/// The layouts between frames: both sampled images readable by shaders, the
/// swapchain image in whatever layout it was acquired in (the render pass
/// discards it).
pub open spec fn frame_start(swapchain: ImageLayout) -> FrameLayouts {
    FrameLayouts {
        feedback: ImageLayout::ShaderReadOnlyOptimal,
        frozen: ImageLayout::ShaderReadOnlyOptimal,
        swapchain,
    }
}

/// The steps of freezing the current feedback into the frozen copy.
pub open spec fn freeze_plan() -> Seq<FrameOp> {
    seq![
        FrameOp::Barrier(FrameImage::Feedback, ImageLayout::ShaderReadOnlyOptimal, ImageLayout::TransferSrcOptimal),
        FrameOp::Barrier(FrameImage::Frozen, ImageLayout::ShaderReadOnlyOptimal, ImageLayout::TransferDstOptimal),
        FrameOp::Blit(FrameImage::Feedback, FrameImage::Frozen),
        FrameOp::Barrier(FrameImage::Feedback, ImageLayout::TransferSrcOptimal, ImageLayout::ShaderReadOnlyOptimal),
        FrameOp::Barrier(FrameImage::Frozen, ImageLayout::TransferDstOptimal, ImageLayout::ShaderReadOnlyOptimal),
    ]
}

/// The steps of drawing and feeding the drawn image back.
pub open spec fn draw_plan() -> Seq<FrameOp> {
    seq![
        FrameOp::Draw,
        FrameOp::Barrier(FrameImage::Feedback, ImageLayout::ShaderReadOnlyOptimal, ImageLayout::TransferDstOptimal),
        FrameOp::Barrier(FrameImage::Swapchain, ImageLayout::PresentSrc, ImageLayout::TransferSrcOptimal),
        FrameOp::Blit(FrameImage::Swapchain, FrameImage::Feedback),
        FrameOp::Barrier(FrameImage::Feedback, ImageLayout::TransferDstOptimal, ImageLayout::ShaderReadOnlyOptimal),
        FrameOp::Barrier(FrameImage::Swapchain, ImageLayout::TransferSrcOptimal, ImageLayout::PresentSrc),
    ]
}

/// A frame's steps: the crossfade freeze first when one is pending, then
/// the draw and the feedback copy.
pub open spec fn frame_plan(freeze: bool) -> Seq<FrameOp> {
    if freeze { freeze_plan() + draw_plan() } else { draw_plan() }
}

/// The steps to record for a frame (`freeze`: a crossfade freeze is
/// pending).
pub fn frame_ops(freeze: bool) -> (ops: Vec<FrameOp>)
    ensures
        ops@ == frame_plan(freeze),
{
    let mut ops: Vec<FrameOp> = Vec::new();
    if freeze {
        ops.push(FrameOp::Barrier(FrameImage::Feedback, ImageLayout::ShaderReadOnlyOptimal, ImageLayout::TransferSrcOptimal));
        ops.push(FrameOp::Barrier(FrameImage::Frozen, ImageLayout::ShaderReadOnlyOptimal, ImageLayout::TransferDstOptimal));
        ops.push(FrameOp::Blit(FrameImage::Feedback, FrameImage::Frozen));
        ops.push(FrameOp::Barrier(FrameImage::Feedback, ImageLayout::TransferSrcOptimal, ImageLayout::ShaderReadOnlyOptimal));
        ops.push(FrameOp::Barrier(FrameImage::Frozen, ImageLayout::TransferDstOptimal, ImageLayout::ShaderReadOnlyOptimal));
    }
    ops.push(FrameOp::Draw);
    ops.push(FrameOp::Barrier(FrameImage::Feedback, ImageLayout::ShaderReadOnlyOptimal, ImageLayout::TransferDstOptimal));
    ops.push(FrameOp::Barrier(FrameImage::Swapchain, ImageLayout::PresentSrc, ImageLayout::TransferSrcOptimal));
    ops.push(FrameOp::Blit(FrameImage::Swapchain, FrameImage::Feedback));
    ops.push(FrameOp::Barrier(FrameImage::Feedback, ImageLayout::TransferDstOptimal, ImageLayout::ShaderReadOnlyOptimal));
    ops.push(FrameOp::Barrier(FrameImage::Swapchain, ImageLayout::TransferSrcOptimal, ImageLayout::PresentSrc));
    assert(ops@ =~= frame_plan(freeze));
    ops
}

/// Every step of a frame is valid where it stands (each barrier starts from
/// the image's current layout, each blit finds its images ready for the
/// copy, the draw finds the sampled images readable), and the frame leaves
/// the images as the next frame needs them: the feedback and frozen images
/// back in the layout they started in, readable by shaders, and the
/// swapchain image presentable.
pub proof fn lemma_frame_plan_restores_layouts(freeze: bool, acquired: ImageLayout)
    ensures
        run_ops(frame_plan(freeze), 0, Some(frame_start(acquired))) == Some(
            frame_start(ImageLayout::PresentSrc),
        ),
{
    let d = draw_plan();
    let f = freeze_plan();
    let start = Some(frame_start(acquired));
    let end = Some(frame_start(ImageLayout::PresentSrc));
    lemma_run_draw(d, acquired);
    if freeze {
        let p = f + d;
        assert(p[0] == f[0]);
        assert(p[1] == f[1]);
        assert(p[2] == f[2]);
        assert(p[3] == f[3]);
        assert(p[4] == f[4]);
        assert(p.subrange(5, 11) =~= d);
        let s1 = step_layouts(start, p[0]);
        let s2 = step_layouts(s1, p[1]);
        let s3 = step_layouts(s2, p[2]);
        let s4 = step_layouts(s3, p[3]);
        let s5 = step_layouts(s4, p[4]);
        assert(s5 == start);
        lemma_run_suffix(p, d, 5, start);
        assert(run_ops(p, 0, start) == run_ops(p, 5, s5)) by {
            assert(run_ops(p, 0, start) == run_ops(p, 1, s1));
            assert(run_ops(p, 1, s1) == run_ops(p, 2, s2));
            assert(run_ops(p, 2, s2) == run_ops(p, 3, s3));
            assert(run_ops(p, 3, s3) == run_ops(p, 4, s4));
            assert(run_ops(p, 4, s4) == run_ops(p, 5, s5));
        }
    }
}

/// What a frame does: it draws, and after the draw copies the drawn image
/// into the feedback texture; with a freeze pending it first (before the
/// draw) copies the feedback texture into the frozen copy, and without one
/// it leaves the frozen copy alone. There is exactly one draw.
pub proof fn lemma_frame_plan_work(freeze: bool)
    ensures
        exists|i: int, j: int|
            0 <= i < j < frame_plan(freeze).len() && frame_plan(freeze)[i] == FrameOp::Draw
                && frame_plan(freeze)[j] == FrameOp::Blit(FrameImage::Swapchain, FrameImage::Feedback),
        freeze ==> exists|i: int, j: int|
            0 <= i < j < frame_plan(freeze).len() && frame_plan(freeze)[i] == FrameOp::Blit(
                FrameImage::Feedback,
                FrameImage::Frozen,
            ) && frame_plan(freeze)[j] == FrameOp::Draw,
        !freeze ==> forall|k: int|
            0 <= k < frame_plan(freeze).len() ==> #[trigger] frame_plan(freeze)[k] != FrameOp::Blit(
                FrameImage::Feedback,
                FrameImage::Frozen,
            ),
        forall|a: int, b: int|
            0 <= a < frame_plan(freeze).len() && 0 <= b < frame_plan(freeze).len() && #[trigger] frame_plan(
                freeze,
            )[a] == FrameOp::Draw && #[trigger] frame_plan(freeze)[b] == FrameOp::Draw ==> a == b,
{
    let p = frame_plan(freeze);
    let d = draw_plan();
    let f = freeze_plan();
    if freeze {
        assert(p == f + d);
        assert(p[5] == FrameOp::Draw);
        assert(p[8] == FrameOp::Blit(FrameImage::Swapchain, FrameImage::Feedback));
        assert(p[2] == FrameOp::Blit(FrameImage::Feedback, FrameImage::Frozen));
        assert forall|a: int, b: int|
            0 <= a < p.len() && 0 <= b < p.len() && #[trigger] p[a] == FrameOp::Draw && #[trigger] p[b] == FrameOp::Draw
            implies a == b by {
            assert(p.len() == 11);
            assert forall|k: int| 0 <= k < 11 && k != 5 implies p[k] != FrameOp::Draw by {
                if k < 5 { assert(p[k] == f[k]); } else { assert(p[k] == d[k - 5]); }
            }
        }
    } else {
        assert(p[0] == FrameOp::Draw);
        assert(p[3] == FrameOp::Blit(FrameImage::Swapchain, FrameImage::Feedback));
        assert forall|a: int, b: int|
            0 <= a < p.len() && 0 <= b < p.len() && #[trigger] p[a] == FrameOp::Draw && #[trigger] p[b] == FrameOp::Draw
            implies a == b by {
            assert(p.len() == 6);
        }
    }
}

/// Running the tail of a sequence equals running the sequence it is.
proof fn lemma_run_suffix(p: Seq<FrameOp>, d: Seq<FrameOp>, k: nat, l: Option<FrameLayouts>)
    requires
        k <= p.len(),
        p.subrange(k as int, p.len() as int) == d,
    ensures
        run_ops(p, k, l) == run_ops(d, 0, l),
    decreases p.len() - k,
{
    lemma_run_shift(p, d, k, 0, l);
}

proof fn lemma_run_shift(p: Seq<FrameOp>, d: Seq<FrameOp>, k: nat, j: nat, l: Option<FrameLayouts>)
    requires
        k <= p.len(),
        p.subrange(k as int, p.len() as int) == d,
        j <= d.len(),
    ensures
        run_ops(p, k + j, l) == run_ops(d, j, l),
    decreases d.len() - j,
{
    if j < d.len() {
        assert(p[(k + j) as int] == d[j as int]);
        lemma_run_shift(p, d, k, j + 1, step_layouts(l, d[j as int]));
    }
}

proof fn lemma_run_draw(d: Seq<FrameOp>, acquired: ImageLayout)
    requires
        d == draw_plan(),
    ensures
        run_ops(d, 0, Some(frame_start(acquired))) == Some(frame_start(ImageLayout::PresentSrc)),
{
    let s0 = Some(frame_start(acquired));
    let s1 = step_layouts(s0, d[0]);
    let s2 = step_layouts(s1, d[1]);
    let s3 = step_layouts(s2, d[2]);
    let s4 = step_layouts(s3, d[3]);
    let s5 = step_layouts(s4, d[4]);
    let s6 = step_layouts(s5, d[5]);
    assert(s6 == Some(frame_start(ImageLayout::PresentSrc)));
    assert(run_ops(d, 0, s0) == run_ops(d, 1, s1));
    assert(run_ops(d, 1, s1) == run_ops(d, 2, s2));
    assert(run_ops(d, 2, s2) == run_ops(d, 3, s3));
    assert(run_ops(d, 3, s3) == run_ops(d, 4, s4));
    assert(run_ops(d, 4, s4) == run_ops(d, 5, s5));
    assert(run_ops(d, 5, s5) == run_ops(d, 6, s6));
    assert(run_ops(d, 6, s6) == s6);
}

/// The abstract state of the renderer's selection logic.
pub struct RenderModel {
    /// Active warp shader.
    pub shader_index: nat,
    /// Number of selectable warp shaders (pipelines).
    pub shader_count: nat,
    /// Whether the 5-cell wireframe overlay is drawn.
    pub fivecell_active: bool,
    /// Whether the next frame must freeze the pre-switch image for the crossfade.
    pub freeze_pending: bool,
    /// Slot of the current frame in flight.
    pub frame_index: nat,
    /// What the fence of each frame-in-flight slot is known to be.
    pub fences: Seq<FenceState>,
}

/// The state of a frame-in-flight fence, as the frame protocol knows it.
#[derive(Clone, Copy, PartialEq, Eq, Debug, Structural)]
pub enum FenceState {
    /// Signalled: waiting on it returns at once.
    Signalled,
    /// Reset and not yet submitted: waiting on it would never return.
    Unsignalled,
    /// Submitted with a frame's work: it signals when that work completes.
    Submitted,
}

/// All slots' fences signalled (they are created signalled).
pub open spec fn all_signalled() -> Seq<FenceState> {
    Seq::new(MAX_FRAMES_IN_FLIGHT as nat, |j: int| FenceState::Signalled)
}

/// The renderer's discrete state: which warp shader is active among the
/// built pipelines, the 5-cell overlay switch, the pending crossfade freeze,
/// and the frame-in-flight slot. (The GPU objects live beside it.)
pub struct RenderState {
    shader_index: usize,
    shader_count: usize,
    fivecell_active: bool,
    freeze_pending: bool,
    frame_index: usize,
    fences: Vec<FenceState>,
}

/// The shader index reached from `i` after `k` calls of `next_shader`
/// among `n` shaders.
pub open spec fn shader_after(i: nat, n: nat, k: nat) -> nat
    decreases k,
{
    if k == 0 {
        i
    } else {
        (shader_after(i, n, (k - 1) as nat) + 1) % n
    }
}

impl View for RenderState {
    type V = RenderModel;

    closed spec fn view(&self) -> RenderModel {
        RenderModel {
            shader_index: self.shader_index as nat,
            shader_count: self.shader_count as nat,
            fivecell_active: self.fivecell_active,
            freeze_pending: self.freeze_pending,
            frame_index: self.frame_index as nat,
            fences: self.fences@,
        }
    }
}

/// The renderer state's invariant, on its model: the active shader is one
/// of the pipelines (or 0 when there are none), the frame slot is one of the
/// frames in flight, there is one fence per slot, and only the current
/// slot's fence can be reset and unsubmitted.
pub open spec fn model_wf(m: RenderModel) -> bool {
    &&& if m.shader_count > 0 {
        m.shader_index < m.shader_count
    } else {
        m.shader_index == 0
    }
    &&& m.frame_index < MAX_FRAMES_IN_FLIGHT
    &&& m.fences.len() == MAX_FRAMES_IN_FLIGHT
    &&& forall|j: int|
        0 <= j < MAX_FRAMES_IN_FLIGHT && j != m.frame_index ==> #[trigger] m.fences[j]
            != FenceState::Unsignalled
}

/// Whether the current frame is closed: its fence was submitted or left
/// signalled.
pub open spec fn closed_model(m: RenderModel) -> bool {
    m.fences[m.frame_index as int] != FenceState::Unsignalled
}

/// The state after `next_shader`.
pub open spec fn next_shader_model(m: RenderModel) -> RenderModel {
    RenderModel { shader_index: (m.shader_index + 1) % m.shader_count, freeze_pending: true, ..m }
}

/// The state after `set_shader_index(idx)`.
pub open spec fn set_shader_model(m: RenderModel, idx: nat) -> RenderModel {
    if m.shader_count > 0 {
        RenderModel { shader_index: idx % m.shader_count, ..m }
    } else {
        m
    }
}

/// The state after `toggle_fivecell`.
pub open spec fn toggle_model(m: RenderModel) -> RenderModel {
    RenderModel { fivecell_active: !m.fivecell_active, ..m }
}

/// The state after `take_freeze`.
pub open spec fn freeze_taken_model(m: RenderModel) -> RenderModel {
    RenderModel { freeze_pending: false, ..m }
}

/// The slot a frame begun in state `m` takes.
pub open spec fn next_slot(m: RenderModel) -> nat {
    (m.frame_index + 1) % (MAX_FRAMES_IN_FLIGHT as nat)
}

/// The state after `begin_frame` with images: the next slot, its fence
/// waited on and so signalled.
pub open spec fn begin_model(m: RenderModel) -> RenderModel {
    RenderModel {
        frame_index: next_slot(m),
        fences: m.fences.update(next_slot(m) as int, FenceState::Signalled),
        ..m
    }
}

/// The state after `image_ready` with a valid image: the slot's fence reset.
pub open spec fn ready_model(m: RenderModel) -> RenderModel {
    RenderModel { fences: m.fences.update(m.frame_index as int, FenceState::Unsignalled), ..m }
}

/// The state after `frame_submitted`.
pub open spec fn submit_model(m: RenderModel) -> RenderModel {
    RenderModel { fences: m.fences.update(m.frame_index as int, FenceState::Submitted), ..m }
}

/// The state after `reset_frames`.
pub open spec fn reset_model(m: RenderModel) -> RenderModel {
    RenderModel { frame_index: 0, ..m }
}

impl RenderState {
    /// See `model_wf`.
    #[verifier::type_invariant]
    closed spec fn wf(self) -> bool {
        &&& if self.shader_count > 0 {
            self.shader_index < self.shader_count
        } else {
            self.shader_index == 0
        }
        &&& self.frame_index < MAX_FRAMES_IN_FLIGHT
        &&& self.fences@.len() == MAX_FRAMES_IN_FLIGHT
        &&& forall|j: int|
            0 <= j < MAX_FRAMES_IN_FLIGHT && j != self.frame_index ==> #[trigger] self.fences@[j]
                != FenceState::Unsignalled
    }

    /// Selection state of a freshly built renderer with `shader_count`
    /// pipelines: first shader, overlay off, nothing to freeze, frame slot 0,
    /// every fence signalled.
    pub fn new(shader_count: usize) -> (s: Self)
        ensures
            s@ == (RenderModel {
                shader_index: 0,
                shader_count: shader_count as nat,
                fivecell_active: false,
                freeze_pending: false,
                frame_index: 0,
                fences: all_signalled(),
            }),
            model_wf(s@),
            closed_model(s@),
    {
        let fences = vec![FenceState::Signalled, FenceState::Signalled];
        assert(fences@ =~= all_signalled());
        RenderState {
            shader_index: 0,
            shader_count,
            fivecell_active: false,
            freeze_pending: false,
            frame_index: 0,
            fences,
        }
    }

    /// Cycle to the next warp shader (wrapping to the first after the last)
    /// and request a freeze of the current frame for the crossfade.
    pub fn next_shader(&mut self)
        requires
            old(self)@.shader_count > 0,
        ensures
            final(self)@ == next_shader_model(old(self)@),
            model_wf(old(self)@),
            model_wf(final(self)@),
    {
        proof { use_type_invariant(&*self); }
        self.shader_index = (self.shader_index + 1) % self.shader_count;
        self.freeze_pending = true;
        proof { use_type_invariant(&*self); }
    }

    /// Toggle the 5-cell wireframe overlay.
    pub fn toggle_fivecell(&mut self)
        ensures
            final(self)@ == toggle_model(old(self)@),
            model_wf(old(self)@),
            model_wf(final(self)@),
    {
        proof { use_type_invariant(&*self); }
        self.fivecell_active = !self.fivecell_active;
        proof { use_type_invariant(&*self); }
    }

    /// Is the 5-cell overlay currently active?
    pub fn fivecell_active(&self) -> (b: bool)
        ensures
            b == self@.fivecell_active,
            model_wf(self@),
    {
        proof { use_type_invariant(self); }
        self.fivecell_active
    }

    /// Active warp shader index (always one of the shaders, when there are any).
    pub fn shader_index(&self) -> (i: usize)
        ensures
            i == self@.shader_index,
            self@.shader_count > 0 ==> i < self@.shader_count,
            model_wf(self@),
    {
        proof { use_type_invariant(self); }
        self.shader_index
    }

    /// Number of selectable warp shaders.
    pub fn shader_count(&self) -> (n: usize)
        ensures
            n == self@.shader_count,
            model_wf(self@),
    {
        proof { use_type_invariant(self); }
        self.shader_count
    }

    /// Display metadata `(name, genre)` of the active warp shader.
    pub fn warp_meta(&self) -> (r: Option<(&'static str, &'static str)>)
        ensures
            meta_view(r) == warp_names(self@.shader_index as int),
            model_wf(self@),
    {
        proof { use_type_invariant(self); }
        warp_meta(self.shader_index)
    }

    /// Jump to shader `idx`, taken modulo the number of shaders; does nothing
    /// when there are no shaders.
    pub fn set_shader_index(&mut self, idx: usize)
        ensures
            final(self)@ == set_shader_model(old(self)@, idx as nat),
            model_wf(old(self)@),
            model_wf(final(self)@),
    {
        proof { use_type_invariant(&*self); }
        if self.shader_count > 0 {
            self.shader_index = idx % self.shader_count;
        }
        proof { use_type_invariant(&*self); }
    }

    /// Consume the pending freeze request: returns whether the current frame
    /// must be frozen for a crossfade, and clears the request.
    pub fn take_freeze(&mut self) -> (b: bool)
        ensures
            b == old(self)@.freeze_pending,
            final(self)@ == freeze_taken_model(old(self)@),
            model_wf(old(self)@),
            model_wf(final(self)@),
    {
        proof { use_type_invariant(&*self); }
        let b = self.freeze_pending;
        self.freeze_pending = false;
        proof { use_type_invariant(&*self); }
        b
    }

    /// Whether the current frame is closed: its fence was submitted or left
    /// signalled, so a new frame may begin.
    pub fn frame_closed(&self) -> (b: bool)
        ensures
            b == closed_model(self@),
            model_wf(self@),
    {
        proof { use_type_invariant(self); }
        self.fences[self.frame_index] != FenceState::Unsignalled
    }

    /// Begin a frame. With no swapchain images there is nothing to draw and
    /// nothing changes. Otherwise the next frame-in-flight slot is taken and
    /// returned; its fence, which the caller then waits on, was submitted or
    /// left signalled (never reset without a submit), so the wait returns,
    /// and it is signalled afterwards.
    pub fn begin_frame(&mut self, has_images: bool) -> (r: Option<usize>)
        requires
            closed_model(old(self)@),
        ensures
            !has_images ==> r is None && final(self)@ == old(self)@,
            has_images ==> {
                &&& r == Some(next_slot(old(self)@) as usize)
                &&& old(self)@.fences[next_slot(old(self)@) as int] != FenceState::Unsignalled
                &&& final(self)@ == begin_model(old(self)@)
            },
            closed_model(final(self)@),
            model_wf(old(self)@),
            model_wf(final(self)@),
    {
        proof { use_type_invariant(&*self); }
        if !has_images {
            return None;
        }
        let i = (self.frame_index + 1) % MAX_FRAMES_IN_FLIGHT;
        self.frame_index = i;
        self.fences = with_fence(&self.fences, i, FenceState::Signalled);
        proof { use_type_invariant(&*self); }
        Some(i)
    }

    /// The acquired swapchain image: when it is one of the `image_count`
    /// images, the frame goes on with it and the caller resets the slot's
    /// fence for the submit; otherwise (the swapchain changed under us) the
    /// frame is skipped and the fence stays as it is, so the next frame
    /// retries without waiting on a fence that nothing will signal.
    pub fn image_ready(&mut self, image_index: u32, image_count: usize) -> (r: Option<usize>)
        ensures
            (image_index as int) < image_count ==> r == Some(image_index as usize) && final(self)@
                == ready_model(old(self)@),
            (image_index as int) >= image_count ==> r is None && final(self)@ == old(self)@,
            model_wf(old(self)@),
            model_wf(final(self)@),
    {
        proof { use_type_invariant(&*self); }
        if (image_index as usize) < image_count {
            self.fences = with_fence(&self.fences, self.frame_index, FenceState::Unsignalled);
            proof { use_type_invariant(&*self); }
            Some(image_index as usize)
        } else {
            None
        }
    }

    /// The frame's work was submitted with the slot's (reset) fence.
    pub fn frame_submitted(&mut self)
        requires
            old(self)@.fences[old(self)@.frame_index as int] == FenceState::Unsignalled,
        ensures
            final(self)@ == submit_model(old(self)@),
            closed_model(final(self)@),
            model_wf(old(self)@),
            model_wf(final(self)@),
    {
        proof { use_type_invariant(&*self); }
        self.fences = with_fence(&self.fences, self.frame_index, FenceState::Submitted);
        proof { use_type_invariant(&*self); }
    }

    /// Restart the frame ring at slot 0 (after a swapchain rebuild, between
    /// frames).
    pub fn reset_frames(&mut self)
        requires
            closed_model(old(self)@),
        ensures
            final(self)@ == reset_model(old(self)@),
            closed_model(final(self)@),
            model_wf(old(self)@),
            model_wf(final(self)@),
    {
        proof { use_type_invariant(&*self); }
        self.frame_index = 0;
        proof { use_type_invariant(&*self); }
    }
}

/// How a frame ends.
#[derive(Clone, Copy, PartialEq, Eq, Debug, Structural)]
pub enum FrameOutcome {
    /// No swapchain images: nothing begun.
    NoImages,
    /// The acquired image is out of range (the swapchain changed): skipped.
    Stale,
    /// Drawn and submitted.
    Drawn,
}

/// A call made on the renderer state.
pub enum RenderEvent {
    NextShader,
    SetShader(nat),
    ToggleFivecell,
    /// One frame: `begin_frame`, then for a valid image `image_ready`,
    /// `take_freeze` and `frame_submitted`.
    Frame(FrameOutcome),
    ResetFrames,
}

/// The state after a frame with outcome `o`.
pub open spec fn frame_model(m: RenderModel, o: FrameOutcome) -> RenderModel {
    match o {
        FrameOutcome::NoImages => m,
        FrameOutcome::Stale => begin_model(m),
        FrameOutcome::Drawn => submit_model(freeze_taken_model(ready_model(begin_model(m)))),
    }
}

/// The state after event `e`.
pub open spec fn apply_event(m: RenderModel, e: RenderEvent) -> RenderModel {
    match e {
        RenderEvent::NextShader => next_shader_model(m),
        RenderEvent::SetShader(idx) => set_shader_model(m, idx),
        RenderEvent::ToggleFivecell => toggle_model(m),
        RenderEvent::Frame(o) => frame_model(m, o),
        RenderEvent::ResetFrames => reset_model(m),
    }
}

/// The state after the events `es`, in order.
pub open spec fn apply_events(m: RenderModel, es: Seq<RenderEvent>) -> RenderModel
    decreases es.len(),
{
    if es.len() == 0 {
        m
    } else {
        apply_events(apply_event(m, es[0]), es.drop_first())
    }
}

/// Whether every frame among the events `es` (from state `m`) waits on a
/// fence that was submitted or left signalled, so that every wait returns.
pub open spec fn waits_return(m: RenderModel, es: Seq<RenderEvent>) -> bool
    decreases es.len(),
{
    if es.len() == 0 {
        true
    } else {
        let ok = match es[0] {
            RenderEvent::Frame(o) => o != FrameOutcome::NoImages ==> m.fences[next_slot(m) as int]
                != FenceState::Unsignalled,
            _ => true,
        };
        ok && waits_return(apply_event(m, es[0]), es.drop_first())
    }
}

proof fn lemma_event_step(m: RenderModel, e: RenderEvent)
    requires
        model_wf(m),
        closed_model(m),
        m.shader_count > 0,
    ensures
        model_wf(apply_event(m, e)),
        closed_model(apply_event(m, e)),
        apply_event(m, e).shader_count == m.shader_count,
        e matches RenderEvent::Frame(o) && o != FrameOutcome::NoImages ==> m.fences[next_slot(m) as int]
            != FenceState::Unsignalled,
{
    let b = begin_model(m);
    assert(model_wf(b));
    assert(model_wf(ready_model(b)));
    assert(model_wf(submit_model(freeze_taken_model(ready_model(b)))));
}

/// Over any sequence of calls on a renderer with shaders, started from a
/// well-formed state between frames: the active shader stays one of the
/// (unchanged number of) shaders, so the pipeline it selects exists; the
/// state stays well formed and closed between frames; and every frame that
/// begins, including those after a frame skipped for an out-of-date image,
/// waits on a fence that was submitted or left signalled, so no wait blocks
/// forever.
pub proof fn lemma_render_sequence(m: RenderModel, es: Seq<RenderEvent>)
    requires
        model_wf(m),
        closed_model(m),
        m.shader_count > 0,
    ensures
        model_wf(apply_events(m, es)),
        closed_model(apply_events(m, es)),
        apply_events(m, es).shader_count == m.shader_count,
        apply_events(m, es).shader_index < m.shader_count,
        waits_return(m, es),
    decreases es.len(),
{
    if es.len() > 0 {
        lemma_event_step(m, es[0]);
        lemma_render_sequence(apply_event(m, es[0]), es.drop_first());
    }
}

/// A copy of `fences` with slot `i` set to `state`.
fn with_fence(fences: &Vec<FenceState>, i: usize, state: FenceState) -> (r: Vec<FenceState>)
    requires
        i < fences@.len(),
    ensures
        r@ == fences@.update(i as int, state),
{
    let n = fences.len();
    let mut r: Vec<FenceState> = Vec::with_capacity(n);
    let mut j: usize = 0;
    while j < n
        invariant
            n == fences@.len(),
            i < n,
            j <= n,
            r@ =~= fences@.update(i as int, state).subrange(0, j as int),
        decreases n - j,
    {
        if j == i {
            r.push(state);
        } else {
            r.push(fences[j]);
        }
        j = j + 1;
    }
    r
}

/// Cycling the warp shaders: after `k` calls of `next_shader` from shader
/// `i` among `n > 0` shaders the active shader is `(i + k) mod n`; in
/// particular `n` calls bring back the shader one started from.
pub proof fn lemma_next_shader_cycles(i: nat, n: nat, k: nat)
    requires
        n > 0,
        i < n,
    ensures
        shader_after(i, n, k) == ((i + k) as int) % (n as int),
        shader_after(i, n, n) == i,
    decreases k,
{
    lemma_shader_after(i, n, k);
    lemma_shader_after(i, n, n);
    assert(((i + n) as int) % (n as int) == i) by {
        vstd::arithmetic::div_mod::lemma_mod_add_multiples_vanish(i as int, n as int);
        vstd::arithmetic::div_mod::lemma_small_mod(i, n);
    }
}

/// One call of `next_shader` is one step of the shader cycle.
pub proof fn lemma_next_shader_steps(m: RenderModel)
    requires
        model_wf(m),
        m.shader_count > 0,
    ensures
        next_shader_model(m).shader_index == shader_after(m.shader_index, m.shader_count, 1),
        next_shader_model(m).shader_index == (if m.shader_index + 1 == m.shader_count {
            0
        } else {
            m.shader_index + 1
        }),
        next_shader_model(m).shader_count == m.shader_count,
        next_shader_model(m).freeze_pending,
{
    assert(shader_after(m.shader_index, m.shader_count, 0) == m.shader_index);
    if m.shader_index + 1 < m.shader_count {
        vstd::arithmetic::div_mod::lemma_small_mod((m.shader_index + 1) as nat, m.shader_count);
    } else {
        vstd::arithmetic::div_mod::lemma_mod_self_0(m.shader_count as int);
    }
}

/// The single steps by hand: jumping to a shader within range selects it
/// (and out of range wraps around); toggling flips the overlay and toggling
/// twice restores it; taking the freeze clears it; a frame that begins takes
/// the other slot and finds its fence signalled after the wait; a valid
/// image resets the current slot's fence; a submit marks it submitted; and
/// none of these touch any other slot's fence or the shader count.
pub proof fn lemma_render_steps(m: RenderModel, idx: nat)
    requires
        model_wf(m),
    ensures
        m.shader_count > 0 && idx < m.shader_count ==> set_shader_model(m, idx).shader_index == idx,
        m.shader_count > 0 && m.shader_count <= idx < 2 * m.shader_count ==> set_shader_model(m, idx).shader_index
            == idx - m.shader_count,
        set_shader_model(m, idx).shader_count == m.shader_count,
        toggle_model(m).fivecell_active == !m.fivecell_active,
        toggle_model(toggle_model(m)) == m,
        !freeze_taken_model(m).freeze_pending,
        begin_model(m).frame_index != m.frame_index,
        begin_model(m).frame_index < MAX_FRAMES_IN_FLIGHT,
        begin_model(m).fences[begin_model(m).frame_index as int] == FenceState::Signalled,
        ready_model(m).fences[m.frame_index as int] == FenceState::Unsignalled,
        submit_model(m).fences[m.frame_index as int] == FenceState::Submitted,
        forall|j: int|
            0 <= j < MAX_FRAMES_IN_FLIGHT && j != m.frame_index ==> #[trigger] ready_model(m).fences[j]
                == m.fences[j] && submit_model(m).fences[j] == m.fences[j],
        reset_model(m).frame_index == 0 && reset_model(m).fences == m.fences,
{
    if m.shader_count > 0 && idx < m.shader_count {
        vstd::arithmetic::div_mod::lemma_small_mod(idx, m.shader_count);
    }
    if m.shader_count > 0 && m.shader_count <= idx < 2 * m.shader_count {
        vstd::arithmetic::div_mod::lemma_fundamental_div_mod_converse(idx as int, m.shader_count as int, 1, idx - m.shader_count);
    }
}

proof fn lemma_shader_after(i: nat, n: nat, k: nat)
    requires
        n > 0,
        i < n,
    ensures
        shader_after(i, n, k) == ((i + k) as int) % (n as int),
    decreases k,
{
    if k == 0 {
        vstd::arithmetic::div_mod::lemma_small_mod(i, n);
    } else {
        lemma_shader_after(i, n, (k - 1) as nat);
        let x = (i + k - 1) as int;
        vstd::arithmetic::div_mod::lemma_small_mod((x % (n as int)) as nat, n);
        vstd::arithmetic::div_mod::lemma_add_mod_noop(x, 1, n as int);
        vstd::arithmetic::div_mod::lemma_add_mod_noop(x % (n as int), 1, n as int);
    }
}

} // verus!
