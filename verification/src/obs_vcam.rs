//! Writer's side of the OBS Virtual Camera shared-memory queue.
//!
//! The layout is that of OBS's `shared-memory-queue.c`, byte for byte, so that
//! the installed virtual-camera filter reads the frames while OBS itself is not
//! running. Here the layout and every store into the shared memory are computed,
//! in the order in which they have to become visible; the program maps the
//! memory and performs them.
//!
//! Frame format is NV12: a Y plane of `cx * cy` bytes, immediately followed by an
//! interleaved UV plane of `cx * cy / 2` bytes.

use crate::text::utf16_units;
use vstd::prelude::*;

verus! {

/// Bytes in front of a frame's pixels; the first eight are its timestamp.
pub const FRAME_HEADER_SIZE: usize = 32;

/// Frames in the queue.
pub const FRAME_COUNT: usize = 3;

/// Bytes of the queue header in the shared memory.
pub const QUEUE_HEADER_SIZE: usize = 80;

/// The queue exists and holds no frame yet.
pub const STATE_STARTING: u32 = 1;

/// The queue holds frames.
pub const STATE_READY: u32 = 2;

/// The writer is going away.
pub const STATE_STOPPING: u32 = 3;

/// Where the header keeps the number of frames begun.
pub const WRITE_IDX_AT: usize = 0;

/// Where the header keeps the number of frames completed.
pub const READ_IDX_AT: usize = 4;

/// Where the header keeps the state.
pub const STATE_AT: usize = 8;

// ---------------------------------------------------------------------------
// Little-endian numbers
// ---------------------------------------------------------------------------

/// The four bytes of a number, lowest first.
pub open spec fn le32(n: u32) -> Seq<u8> {
    seq![
        (n % 256) as u8,
        (n / 256 % 256) as u8,
        (n / 0x1_0000 % 256) as u8,
        (n / 0x100_0000) as u8,
    ]
}

/// The number in four bytes, lowest first.
pub open spec fn number32(b: Seq<u8>) -> int {
    b[0] + 256 * b[1] + 0x1_0000 * b[2] + 0x100_0000 * b[3]
}

/// The eight bytes of a number, lowest first.
pub open spec fn le64(n: u64) -> Seq<u8> {
    le32((n % 0x1_0000_0000) as u32) + le32((n / 0x1_0000_0000) as u32)
}

fn append32(out: &mut Vec<u8>, n: u32)
    ensures
        final(out)@ == old(out)@ + le32(n),
{
    out.push((n % 256) as u8);
    out.push((n / 256 % 256) as u8);
    out.push((n / 0x1_0000 % 256) as u8);
    out.push((n / 0x100_0000) as u8);
    assert(out@ =~= old(out)@ + le32(n));
}

// ---------------------------------------------------------------------------
// Header
// ---------------------------------------------------------------------------

/// The queue header.
pub struct QueueHeader {
    pub write_idx: u32,
    pub read_idx: u32,
    pub state: u32,
    pub offsets: [u32; 3],
    /// 0 for video.
    pub kind: u32,
    pub cx: u32,
    pub cy: u32,
    /// Frame interval in units of 100 ns.
    pub interval: u64,
    pub reserved: [u32; 8],
}

/// Word `j` of the header: the fields in order. The interval takes two words and
/// begins at an even one, so that the word in front of it is unused.
pub open spec fn header_word(h: QueueHeader, j: int) -> u32 {
    if j == 0 {
        h.write_idx
    } else if j == 1 {
        h.read_idx
    } else if j == 2 {
        h.state
    } else if j < 6 {
        h.offsets@[j - 3]
    } else if j == 6 {
        h.kind
    } else if j == 7 {
        h.cx
    } else if j == 8 {
        h.cy
    } else if j == 9 {
        0
    } else if j == 10 {
        (h.interval % 0x1_0000_0000) as u32
    } else if j == 11 {
        (h.interval / 0x1_0000_0000) as u32
    } else {
        h.reserved@[j - 12]
    }
}

/// The header in the shared memory: twenty words, one behind the other.
pub open spec fn header_bytes(h: QueueHeader) -> Seq<u8> {
    Seq::new(80, |i: int| le32(header_word(h, i / 4))[i % 4])
}

/// The number that a reader finds in the four bytes at `at`.
pub open spec fn word_at(mem: Seq<u8>, at: int) -> int {
    number32(mem.subrange(at, at + 4))
}

/// The number that a reader finds in the eight bytes at `at`.
pub open spec fn long_at(mem: Seq<u8>, at: int) -> int {
    word_at(mem, at) + 0x1_0000_0000 * word_at(mem, at + 4)
}

proof fn lemma_number32(n: u32)
    ensures
        le32(n).len() == 4,
        number32(le32(n)) == n,
{
}

/// Four bytes that are those of a number are read as that number.
proof fn lemma_word_is_read(mem: Seq<u8>, at: int, n: u32)
    requires
        0 <= at,
        at + 4 <= mem.len(),
        forall|i: int| 0 <= i < 4 ==> mem[at + i] == #[trigger] le32(n)[i],
    ensures
        word_at(mem, at) == n,
{
    let read = mem.subrange(at, at + 4);
    lemma_number32(n);
    assert forall|i: int| 0 <= i < 4 implies read[i] == #[trigger] le32(n)[i] by {
        assert(read[i] == mem[at + i]);
    }
    assert(read =~= le32(n));
}

proof fn lemma_header_byte(h: QueueHeader, j: int, i: int)
    requires
        0 <= j < 20,
        0 <= i < 4,
    ensures
        header_bytes(h)[4 * j + i] == le32(header_word(h, j))[i],
{
    assert((4 * j + i) / 4 == j);
    assert((4 * j + i) % 4 == i);
}

proof fn lemma_word(h: QueueHeader, j: int)
    requires
        0 <= j < 20,
    ensures
        word_at(header_bytes(h), 4 * j) == header_word(h, j),
{
    let n = header_word(h, j);
    assert forall|i: int| 0 <= i < 4 implies header_bytes(h)[4 * j + i]
        == #[trigger] le32(n)[i] by {
        lemma_header_byte(h, j, i);
    }
    lemma_word_is_read(header_bytes(h), 4 * j, n);
}

impl QueueHeader {
    /// The header as it stands in the shared memory.
    pub fn encode(&self) -> (bytes: Vec<u8>)
        ensures
            bytes@ == header_bytes(*self),
            bytes@.len() == QUEUE_HEADER_SIZE,
    {
        let words: [u32; 20] = [
            self.write_idx,
            self.read_idx,
            self.state,
            self.offsets[0],
            self.offsets[1],
            self.offsets[2],
            self.kind,
            self.cx,
            self.cy,
            0,
            (self.interval % 0x1_0000_0000) as u32,
            (self.interval / 0x1_0000_0000) as u32,
            self.reserved[0],
            self.reserved[1],
            self.reserved[2],
            self.reserved[3],
            self.reserved[4],
            self.reserved[5],
            self.reserved[6],
            self.reserved[7],
        ];
        let mut out: Vec<u8> = Vec::new();
        assert(out@ =~= header_bytes(*self).take(0));
        let mut k: usize = 0;
        while k < 20
            invariant
                k <= 20,
                forall|j: int| 0 <= j < 20 ==> #[trigger] words@[j] == header_word(*self, j),
                out@ == header_bytes(*self).take(4 * k),
            decreases 20 - k,
        {
            append32(&mut out, words[k]);
            k += 1;
            assert(out@ =~= header_bytes(*self).take(4 * k));
        }
        assert(header_bytes(*self).take(80) =~= header_bytes(*self));
        out
    }
}

/// A reader finds every field of the header at its place.
pub proof fn law_header_reads_back(h: QueueHeader)
    ensures
        header_bytes(h).len() == QUEUE_HEADER_SIZE,
        word_at(header_bytes(h), WRITE_IDX_AT as int) == h.write_idx,
        word_at(header_bytes(h), READ_IDX_AT as int) == h.read_idx,
        word_at(header_bytes(h), STATE_AT as int) == h.state,
        forall|k: int|
            0 <= k < 3 ==> word_at(header_bytes(h), 12 + 4 * k) == #[trigger] h.offsets@[k],
        word_at(header_bytes(h), 24) == h.kind,
        word_at(header_bytes(h), 28) == h.cx,
        word_at(header_bytes(h), 32) == h.cy,
        long_at(header_bytes(h), 40) == h.interval,
        forall|k: int|
            0 <= k < 8 ==> word_at(header_bytes(h), 48 + 4 * k) == #[trigger] h.reserved@[k],
{
    lemma_word(h, 0);
    lemma_word(h, 1);
    lemma_word(h, 2);
    lemma_word(h, 6);
    lemma_word(h, 7);
    lemma_word(h, 8);
    lemma_word(h, 10);
    lemma_word(h, 11);
    assert forall|k: int| 0 <= k < 3 implies word_at(header_bytes(h), 12 + 4 * k)
        == #[trigger] h.offsets@[k] by {
        lemma_word(h, 3 + k);
    }
    assert forall|k: int| 0 <= k < 8 implies word_at(header_bytes(h), 48 + 4 * k)
        == #[trigger] h.reserved@[k] by {
        lemma_word(h, 12 + k);
    }
}

proof fn lemma_slots_are_in_the_header(h: QueueHeader, bytes: Seq<u8>, slots: Seq<usize>)
    requires
        bytes == header_bytes(h),
        h.offsets@[0] == slots[0],
        h.offsets@[1] == slots[1],
        h.offsets@[2] == slots[2],
    ensures
        forall|k: int| 0 <= k < 3 ==> word_at(bytes, 12 + 4 * k) == #[trigger] slots[k],
{
    lemma_word(h, 3);
    lemma_word(h, 4);
    lemma_word(h, 5);
}

// ---------------------------------------------------------------------------
// Layout
// ---------------------------------------------------------------------------

/// The least multiple of 32 that is not below `n`.
pub open spec fn aligned32(n: int) -> int {
    (n + 31) / 32 * 32
}

/// Rounds up to a multiple of 32.
pub fn align32(n: usize) -> (r: usize)
    requires
        n + 31 <= usize::MAX,
    ensures
        r == aligned32(n as int),
{
    let m: usize = n + 31;
    assert((m & !31) == m / 32 * 32) by (bit_vector);
    m & !31
}

/// Pixel bytes of an NV12 frame.
pub open spec fn frame_size(cx: u32, cy: u32) -> int {
    cx * cy * 3 / 2
}

/// Bytes from one frame's region to the next.
pub open spec fn region_size(cx: u32, cy: u32) -> int {
    aligned32(frame_size(cx, cy) + FRAME_HEADER_SIZE)
}

/// Where the region of frame `k` begins: behind the header, which is aligned too.
pub open spec fn frame_offset(cx: u32, cy: u32, k: int) -> int {
    96 + k * region_size(cx, cy)
}

/// Size of the whole mapping.
pub open spec fn mapping_size(cx: u32, cy: u32) -> int {
    96 + 3 * region_size(cx, cy)
}

/// The sizes can be computed in the machine's arithmetic.
pub open spec fn layout_fits(cx: u32, cy: u32) -> bool {
    &&& cx * cy * 3 <= usize::MAX
    &&& frame_offset(cx, cy, 2) + frame_size(cx, cy) + FRAME_HEADER_SIZE + 31 <= usize::MAX
}

proof fn lemma_area(cx: u32, cy: u32)
    ensures
        0 <= cx * cy <= 0xFFFF_FFFE_0000_0001,
{
    assert(0 <= cx * cy <= 0xFFFF_FFFE_0000_0001) by (nonlinear_arith)
        requires
            0 <= cx <= 0xFFFF_FFFF,
            0 <= cy <= 0xFFFF_FFFF,
    ;
}

/// Tests whether the layout can be computed.
pub fn has_layout(cx: u32, cy: u32) -> (b: bool)
    ensures
        b == layout_fits(cx, cy),
{
    proof {
        lemma_area(cx, cy);
    }
    let limit: u128 = usize::MAX as u128;
    let area: u128 = cx as u128 * cy as u128;
    let frame: u128 = area * 3 / 2;
    let region: u128 = (frame + 63) / 32 * 32;
    area * 3 <= limit && 96 + 2 * region + frame + 63 <= limit
}

proof fn lemma_next_region(cx: u32, cy: u32, k: int)
    requires
        0 <= k < 3,
    ensures
        0 <= frame_offset(cx, cy, k) <= frame_offset(cx, cy, 2),
        frame_offset(cx, cy, k) % 32 == 0,
        frame_offset(cx, cy, k + 1) == frame_offset(cx, cy, k) + region_size(cx, cy),
        frame_offset(cx, cy, k + 1) == aligned32(
            frame_offset(cx, cy, k) + frame_size(cx, cy) + FRAME_HEADER_SIZE,
        ),
        0 <= frame_size(cx, cy),
{
    lemma_area(cx, cy);
    let region = region_size(cx, cy);
    lemma_align(0, frame_size(cx, cy) + FRAME_HEADER_SIZE);
    lemma_multiples(k, region);
    lemma_align(frame_offset(cx, cy, k), frame_size(cx, cy) + FRAME_HEADER_SIZE);
}

proof fn lemma_multiples(k: int, region: int)
    requires
        0 <= k <= 2,
        0 <= region,
        region % 32 == 0,
    ensures
        0 <= k * region <= 2 * region,
        k * region % 32 == 0,
        (k + 1) * region == k * region + region,
{
    assert(k * region == 0 && k == 0 || k * region == region && k == 1 || k * region == 2 * region
        && k == 2) by (nonlinear_arith)
        requires
            0 <= k <= 2,
    ;
    assert((k + 1) * region == k * region + region) by (nonlinear_arith);
}

proof fn lemma_align(base: int, n: int)
    requires
        base % 32 == 0,
    ensures
        aligned32(base + n) == base + aligned32(n),
        aligned32(n) % 32 == 0,
        n <= aligned32(n) < n + 32,
{
}

/// The frame offsets and the total size of the mapping: an aligned header, then
/// three regions, each of a frame header and the pixels, 32-byte aligned.
pub fn frame_layout(cx: u32, cy: u32) -> (layout: ([usize; 3], usize))
    requires
        layout_fits(cx, cy),
    ensures
        forall|k: int| 0 <= k < 3 ==> #[trigger] layout.0@[k] == frame_offset(cx, cy, k),
        layout.1 == mapping_size(cx, cy),
{
    proof {
        lemma_area(cx, cy);
    }
    let pixels: usize = (cx as usize) * (cy as usize) * 3 / 2;
    let mut offsets: [usize; 3] = [0, 0, 0];
    let mut size: usize = align32(QUEUE_HEADER_SIZE);
    let mut k: usize = 0;
    while k < FRAME_COUNT
        invariant
            k <= 3,
            layout_fits(cx, cy),
            pixels == frame_size(cx, cy),
            size == frame_offset(cx, cy, k as int),
            forall|j: int| 0 <= j < k ==> #[trigger] offsets@[j] == frame_offset(cx, cy, j),
        decreases 3 - k,
    {
        proof {
            lemma_next_region(cx, cy, k as int);
        }
        offsets[k] = size;
        size = align32(size + pixels + FRAME_HEADER_SIZE);
        k += 1;
    }
    (offsets, size)
}

/// Every region begins at a multiple of 32, holds its frame header and pixels,
/// ends where the next one begins and lies inside the mapping, behind the header.
pub proof fn law_regions_are_apart(cx: u32, cy: u32, k: int)
    requires
        0 <= k < 3,
    ensures
        QUEUE_HEADER_SIZE <= frame_offset(cx, cy, 0) == 96,
        frame_offset(cx, cy, k) % 32 == 0,
        frame_offset(cx, cy, k) + FRAME_HEADER_SIZE + frame_size(cx, cy) <= frame_offset(
            cx,
            cy,
            k + 1,
        ),
        frame_offset(cx, cy, k + 1) - frame_offset(cx, cy, k) == region_size(cx, cy),
        frame_offset(cx, cy, 3) == mapping_size(cx, cy),
{
    lemma_next_region(cx, cy, k);
}

/// The null-terminated name of the mapping that the filter looks for.
pub open spec fn queue_name() -> Seq<char> {
    "OBSVirtualCamVideo\0"@
}

/// The wide, null-terminated name of the mapping that the filter looks for.
pub fn video_name() -> (name: Vec<u16>)
    ensures
        name@ == crate::text::utf16(queue_name()),
{
    utf16_units("OBSVirtualCamVideo\0")
}

// ---------------------------------------------------------------------------
// Stores
// ---------------------------------------------------------------------------

/// A store into the shared memory, little-endian.
pub enum Store<'a> {
    Word { at: usize, word: u32 },
    Long { at: usize, long: u64 },
    Bytes { at: usize, bytes: &'a [u8] },
}

/// What a `Store` holds.
pub enum StoreModel {
    Word { at: int, word: u32 },
    Long { at: int, long: u64 },
    Bytes { at: int, bytes: Seq<u8> },
}

impl View for Store<'_> {
    type V = StoreModel;

    open spec fn view(&self) -> StoreModel {
        match *self {
            Store::Word { at, word } => StoreModel::Word { at: at as int, word },
            Store::Long { at, long } => StoreModel::Long { at: at as int, long },
            Store::Bytes { at, bytes } => StoreModel::Bytes { at: at as int, bytes: bytes@ },
        }
    }
}

/// What a list of stores holds, in order.
pub open spec fn store_list(stores: Seq<Store<'_>>) -> Seq<StoreModel> {
    stores.map_values(|s: Store<'_>| s@)
}

/// Where a store begins.
pub open spec fn store_at(store: StoreModel) -> int {
    match store {
        StoreModel::Word { at, word } => at,
        StoreModel::Long { at, long } => at,
        StoreModel::Bytes { at, bytes } => at,
    }
}

/// The bytes that a store writes.
pub open spec fn store_bytes(store: StoreModel) -> Seq<u8> {
    match store {
        StoreModel::Word { at, word } => le32(word),
        StoreModel::Long { at, long } => le64(long),
        StoreModel::Bytes { at, bytes } => bytes,
    }
}

/// The memory after bytes were written to a place in it.
pub open spec fn written(mem: Seq<u8>, at: int, bytes: Seq<u8>) -> Seq<u8> {
    Seq::new(
        mem.len(),
        |i: int|
            if at <= i < at + bytes.len() {
                bytes[i - at]
            } else {
                mem[i]
            },
    )
}

/// The memory after a store.
pub open spec fn stored(mem: Seq<u8>, store: StoreModel) -> Seq<u8> {
    written(mem, store_at(store), store_bytes(store))
}

/// The memory after stores, in order.
pub open spec fn after_stores(mem: Seq<u8>, stores: Seq<StoreModel>) -> Seq<u8>
    decreases stores.len(),
{
    if stores.len() == 0 {
        mem
    } else {
        stored(after_stores(mem, stores.drop_last()), stores.last())
    }
}

// ---------------------------------------------------------------------------
// The virtual camera
// ---------------------------------------------------------------------------

/// How the attempt to make the mapping went.
#[derive(Clone, Copy, PartialEq, Eq, Structural, Debug)]
pub enum Mapping {
    /// A mapping of that name exists already.
    AlreadyThere,
    /// The mapping could not be created.
    NotCreated,
    /// The mapping was created and could not be mapped into memory.
    NotMapped,
    /// The memory is mapped.
    Mapped,
}

/// What to do to make the mapping.
#[derive(Clone, Copy, PartialEq, Eq, Structural, Debug)]
pub enum MapStep {
    /// Try to open a mapping of that name.
    Open,
    /// Create the mapping.
    Create,
    /// Map it into memory.
    View,
    /// Nothing more: this is how it went. `close` tells to close the handle that the
    /// last successful call gave.
    Done { mapping: Mapping, close: bool },
}

/// What follows a step that failed or did not. A mapping that can be opened belongs to
/// someone else: it is closed again, and none is made beside it.
pub open spec fn after_map_step(step: MapStep, failed: bool) -> MapStep {
    match step {
        MapStep::Open => if failed {
            MapStep::Create
        } else {
            MapStep::Done { mapping: Mapping::AlreadyThere, close: true }
        },
        MapStep::Create => if failed {
            MapStep::Done { mapping: Mapping::NotCreated, close: false }
        } else {
            MapStep::View
        },
        MapStep::View => if failed {
            MapStep::Done { mapping: Mapping::NotMapped, close: true }
        } else {
            MapStep::Done { mapping: Mapping::Mapped, close: false }
        },
        MapStep::Done { mapping, close } => step,
    }
}

/// What to do next to make the mapping, once a step failed or did not. The first step
/// is to try to open one.
pub fn map_next(step: MapStep, failed: bool) -> (next: MapStep)
    ensures
        next == after_map_step(step, failed),
{
    match step {
        MapStep::Open => {
            if failed {
                MapStep::Create
            } else {
                MapStep::Done { mapping: Mapping::AlreadyThere, close: true }
            }
        },
        MapStep::Create => {
            if failed {
                MapStep::Done { mapping: Mapping::NotCreated, close: false }
            } else {
                MapStep::View
            }
        },
        MapStep::View => {
            if failed {
                MapStep::Done { mapping: Mapping::NotMapped, close: true }
            } else {
                MapStep::Done { mapping: Mapping::Mapped, close: false }
            }
        },
        MapStep::Done { mapping: _, close: _ } => step,
    }
}

/// How many handles are held before a step.
pub open spec fn handles_held(step: MapStep) -> int {
    match step {
        MapStep::Open => 0,
        MapStep::Create => 0,
        MapStep::View => 1,
        MapStep::Done { mapping, close } => if close || mapping == Mapping::Mapped {
            1
        } else {
            0
        },
    }
}

/// A step that gives a handle if it does not fail.
pub open spec fn gives_handle(step: MapStep) -> bool {
    step is Open || step is Create
}

/// No mapping is made beside one that exists: once one could be opened, nothing is
/// created, and the opened one is closed.
pub proof fn law_no_mapping_beside_another()
    ensures
        after_map_step(MapStep::Open, false) == (MapStep::Done {
            mapping: Mapping::AlreadyThere,
            close: true,
        }),
        forall|step: MapStep, failed: bool|
            #[trigger] after_map_step(step, failed) == MapStep::Create ==> step == MapStep::Open
                && failed || step == MapStep::Create,
{
}

/// No handle is lost: of those that the calls gave, what is held is told to be closed
/// exactly if the memory is not mapped.
pub proof fn law_no_handle_is_left_open(step: MapStep, failed: bool)
    requires
        !(step is Done),
    ensures
        ({
            let next = after_map_step(step, failed);
            &&& handles_held(next) == handles_held(step) + if gives_handle(step) && !failed {
                1int
            } else {
                0int
            }
            &&& next matches MapStep::Done { mapping, close } ==> close == (mapping
                != Mapping::Mapped && handles_held(next) > 0)
        }),
{
}

/// Where an open virtual camera keeps its frames.
pub struct ObsVirtualCam {
    offsets: [usize; 3],
    y_size: usize,
}

/// The number of the frame behind frame `write_idx`.
pub open spec fn next_idx(write_idx: u32) -> u32 {
    if write_idx == u32::MAX {
        0
    } else {
        (write_idx + 1) as u32
    }
}

/// The stores that publish one frame behind frame `write_idx`, into the slots at
/// `offsets`: the frame is announced as begun, then written, then announced as complete.
/// A number is stored by one write, so that no reader finds a part of it.
pub open spec fn frame_stores(
    offsets: Seq<usize>,
    write_idx: u32,
    y: Seq<u8>,
    uv: Seq<u8>,
    timestamp: u64,
) -> Seq<StoreModel> {
    let n = next_idx(write_idx);
    let at = offsets[(n % 3) as int];
    seq![
        StoreModel::Word { at: WRITE_IDX_AT as int, word: n },
        StoreModel::Long { at: at as int, long: timestamp },
        StoreModel::Bytes { at: at + FRAME_HEADER_SIZE, bytes: y },
        StoreModel::Bytes { at: at + FRAME_HEADER_SIZE + y.len(), bytes: uv },
        StoreModel::Word { at: READ_IDX_AT as int, word: n },
        StoreModel::Word { at: STATE_AT as int, word: STATE_READY },
    ]
}

/// The numbers of a frame's stores are stored by one write each.
pub open spec fn numbers_are_whole(stores: Seq<Store<'_>>) -> bool {
    &&& stores.len() == 6
    &&& stores[0] is Word
    &&& stores[1] is Long
    &&& stores[4] is Word
    &&& stores[5] is Word
}

/// Why a camera cannot be opened, if it cannot.
pub open spec fn refusal(mapping: Mapping) -> Option<Seq<char>> {
    match mapping {
        Mapping::AlreadyThere => Some(
            "OBSVirtualCamVideo already in use — is OBS (or another instance) already running the virtual camera?"@,
        ),
        Mapping::NotCreated => Some(
            "CreateFileMappingW failed (is the OBS virtual camera installed?)"@,
        ),
        Mapping::NotMapped => Some("MapViewOfFile failed"@),
        Mapping::Mapped => None,
    }
}

/// The last store of a camera that goes away.
pub open spec fn closing_store() -> StoreModel {
    StoreModel::Word { at: STATE_AT as int, word: STATE_STOPPING }
}

/// The header of a queue that holds no frame yet. Its fields have 32 bits, and
/// so have the sizes that the mapping can have.
pub open spec fn initial_header(cx: u32, cy: u32, interval: u64) -> QueueHeader {
    QueueHeader {
        write_idx: 0,
        read_idx: 0,
        state: STATE_STARTING,
        offsets: [
            frame_offset(cx, cy, 0) as u32,
            frame_offset(cx, cy, 1) as u32,
            frame_offset(cx, cy, 2) as u32,
        ],
        kind: 0,
        cx,
        cy,
        interval,
        reserved: [0, 0, 0, 0, 0, 0, 0, 0],
    }
}

/// The three slots of the layout for frames of `cx` by `cy` pixels.
pub open spec fn layout_slots(cx: u32, cy: u32) -> Seq<usize> {
    Seq::new(3, |k: int| frame_offset(cx, cy, k) as usize)
}

impl ObsVirtualCam {
    /// Where the three frames begin.
    pub closed spec fn slots(&self) -> Seq<usize> {
        self.offsets@
    }

    /// Bytes of a Y plane.
    pub closed spec fn luma_size(&self) -> int {
        self.y_size as int
    }

    /// The camera has the layout of frames of `cx` by `cy` pixels.
    pub open spec fn is_for(&self, cx: u32, cy: u32) -> bool {
        &&& layout_fits(cx, cy)
        &&& self.slots() == layout_slots(cx, cy)
        &&& self.luma_size() == cx * cy
    }

    /// Positions inside a frame can be computed in the machine's arithmetic.
    #[verifier::type_invariant]
    spec fn positions_fit(&self) -> bool {
        forall|k: int|
            0 <= k < 3 ==> #[trigger] self.offsets@[k] + FRAME_HEADER_SIZE + self.y_size
                <= usize::MAX
    }

    /// The size to ask for when the mapping is made; it is a 32-bit number.
    pub fn mapping_bytes(cx: u32, cy: u32) -> (n: u32)
        requires
            layout_fits(cx, cy),
        ensures
            n == mapping_size(cx, cy) as u32,
    {
        let (_, total) = frame_layout(cx, cy);
        #[verifier::truncate]
        (total as u32)
    }

    /// Opens the queue as its writer, once the program has tried to make the mapping.
    /// `interval` is the frame interval in units of 100 ns (333_333 for 30 frames per
    /// second). Gives the camera, and the header that has to be written to the
    /// beginning of the mapping; or says what went wrong.
    pub fn create(cx: u32, cy: u32, interval: u64, mapping: Mapping) -> (opened: Result<
        (ObsVirtualCam, Vec<u8>),
        String,
    >)
        requires
            layout_fits(cx, cy),
        ensures
            match opened {
                Ok((cam, header)) => {
                    &&& mapping == Mapping::Mapped
                    &&& cam.is_for(cx, cy)
                    &&& header@ == header_bytes(initial_header(cx, cy, interval))
                    &&& mapping_size(cx, cy) <= u32::MAX ==> forall|k: int|
                        0 <= k < 3 ==> word_at(header@, 12 + 4 * k) == #[trigger] cam.slots()[k]
                },
                Err(message) => refusal(mapping) == Some(message@),
            },
    {
        match mapping {
            Mapping::AlreadyThere => Err(
                "OBSVirtualCamVideo already in use — is OBS (or another instance) already running the virtual camera?".to_string(),
            ),
            Mapping::NotCreated => Err(
                "CreateFileMappingW failed (is the OBS virtual camera installed?)".to_string(),
            ),
            Mapping::NotMapped => Err("MapViewOfFile failed".to_string()),
            Mapping::Mapped => {
                let (offsets, _) = frame_layout(cx, cy);
                proof {
                    lemma_area(cx, cy);
                    lemma_next_region(cx, cy, 0);
                    lemma_next_region(cx, cy, 1);
                    lemma_next_region(cx, cy, 2);
                }
                let header = QueueHeader {
                    write_idx: 0,
                    read_idx: 0,
                    state: STATE_STARTING,
                    offsets: [
                        #[verifier::truncate]
                        (offsets[0] as u32),
                        #[verifier::truncate]
                        (offsets[1] as u32),
                        #[verifier::truncate]
                        (offsets[2] as u32),
                    ],
                    kind: 0,
                    cx,
                    cy,
                    interval,
                    reserved: [0, 0, 0, 0, 0, 0, 0, 0],
                };
                let ghost expected = initial_header(cx, cy, interval);
                assert(header.offsets =~= expected.offsets);
                assert(header.reserved =~= expected.reserved);
                assert(offsets@ =~= layout_slots(cx, cy));
                let cam = ObsVirtualCam { offsets, y_size: (cx as usize) * (cy as usize) };
                let bytes = header.encode();
                proof {
                    if mapping_size(cx, cy) <= u32::MAX {
                        lemma_slots_are_in_the_header(header, bytes@, offsets@);
                    }
                }
                Ok((cam, bytes))
            },
        }
    }

    /// The stores that publish one NV12 frame behind frame `write_idx`, which the
    /// header holds. `timestamp` is in units of 100 ns. They have to be performed in
    /// order.
    pub fn write_nv12<'a>(
        &self,
        write_idx: u32,
        y: &'a [u8],
        uv: &'a [u8],
        timestamp: u64,
    ) -> (stores: Vec<Store<'a>>)
        requires
            y@.len() == self.luma_size(),
            uv@.len() == self.luma_size() / 2,
        ensures
            store_list(stores@) == frame_stores(self.slots(), write_idx, y@, uv@, timestamp),
            numbers_are_whole(stores@),
    {
        proof {
            use_type_invariant(self);
        }
        let inc: u32 = write_idx.wrapping_add(1);
        let slot: usize = (inc % 3) as usize;
        let at: usize = self.offsets[slot];
        assert(self.slots()[slot as int] == at);
        let mut stores: Vec<Store<'a>> = Vec::new();
        stores.push(Store::Word { at: WRITE_IDX_AT, word: inc });
        stores.push(Store::Long { at, long: timestamp });
        stores.push(Store::Bytes { at: at + FRAME_HEADER_SIZE, bytes: y });
        stores.push(Store::Bytes { at: at + FRAME_HEADER_SIZE + self.y_size, bytes: uv });
        stores.push(Store::Word { at: READ_IDX_AT, word: inc });
        stores.push(Store::Word { at: STATE_AT, word: STATE_READY });
        assert(store_list(stores@) =~= frame_stores(self.slots(), write_idx, y@, uv@, timestamp));
        stores
    }

    /// Tests whether a frame has the sizes that the camera was made for.
    pub fn takes(&self, y: &[u8], uv: &[u8]) -> (b: bool)
        ensures
            b == (y@.len() == self.luma_size() && uv@.len() == self.luma_size() / 2),
    {
        y.len() == self.y_size && uv.len() == self.y_size / 2
    }

    /// The last store of a camera that goes away.
    pub fn closing() -> (store: Store<'static>)
        ensures
            store@ == closing_store(),
    {
        Store::Word { at: STATE_AT, word: STATE_STOPPING }
    }
}

// ---------------------------------------------------------------------------
// What a reader finds
// ---------------------------------------------------------------------------

/// Frame `n` stands in its slot of the shared memory.
pub open spec fn holds_frame(
    mem: Seq<u8>,
    cx: u32,
    cy: u32,
    n: u32,
    y: Seq<u8>,
    uv: Seq<u8>,
    timestamp: u64,
) -> bool {
    let at = frame_offset(cx, cy, (n % 3) as int);
    let pixels = at + FRAME_HEADER_SIZE;
    &&& long_at(mem, at) == timestamp
    &&& mem.subrange(pixels, pixels + y.len()) == y
    &&& mem.subrange(pixels + y.len(), pixels + y.len() + uv.len()) == uv
}

proof fn lemma_stored_word(mem: Seq<u8>, at: int, n: u32)
    requires
        0 <= at,
        at + 4 <= mem.len(),
    ensures
        word_at(stored(mem, StoreModel::Word { at, word: n }), at) == n,
{
    lemma_word_is_read(stored(mem, StoreModel::Word { at, word: n }), at, n);
}

proof fn lemma_stored_long(mem: Seq<u8>, at: int, n: u64)
    requires
        0 <= at,
        at + 8 <= mem.len(),
    ensures
        long_at(stored(mem, StoreModel::Long { at, long: n }), at) == n,
{
    let lo = (n % 0x1_0000_0000) as u32;
    let hi = (n / 0x1_0000_0000) as u32;
    let m = stored(mem, StoreModel::Long { at, long: n });
    assert forall|i: int| 0 <= i < 4 implies m[at + i] == #[trigger] le32(lo)[i] by {
        assert(m[at + i] == le64(n)[i]);
    }
    assert forall|i: int| 0 <= i < 4 implies m[at + 4 + i] == #[trigger] le32(hi)[i] by {
        assert(m[at + 4 + i] == le64(n)[4 + i]);
    }
    lemma_word_is_read(m, at, lo);
    lemma_word_is_read(m, at + 4, hi);
}

/// Three steps of the six that publish a frame: the memory before the frame is
/// announced as complete, after that, and at the end.
proof fn lemma_frame_steps(mem: Seq<u8>, stores: Seq<StoreModel>)
    requires
        stores.len() == 6,
    ensures
        after_stores(mem, stores.take(4)) == stored(
            stored(stored(stored(mem, stores[0]), stores[1]), stores[2]),
            stores[3],
        ),
        after_stores(mem, stores) == stored(
            stored(after_stores(mem, stores.take(4)), stores[4]),
            stores[5],
        ),
{
    let s5 = stores.drop_last();
    let s4 = s5.drop_last();
    let s3 = s4.drop_last();
    let s2 = s3.drop_last();
    let s1 = s2.drop_last();
    assert(s4 =~= stores.take(4));
    assert(s1.drop_last() =~= Seq::empty());
    assert(after_stores(mem, s1.drop_last()) == mem);
    assert(after_stores(mem, s1) == stored(mem, stores[0]));
    assert(after_stores(mem, s2) == stored(after_stores(mem, s1), stores[1]));
    assert(after_stores(mem, s3) == stored(after_stores(mem, s2), stores[2]));
    assert(after_stores(mem, s4) == stored(after_stores(mem, s3), stores[3]));
    assert(after_stores(mem, s5) == stored(after_stores(mem, s4), stores[4]));
}

/// A frame is complete in its slot before the header announces it as complete.
pub proof fn law_frame_is_complete_before_it_is_announced(
    mem: Seq<u8>,
    cx: u32,
    cy: u32,
    write_idx: u32,
    y: Seq<u8>,
    uv: Seq<u8>,
    timestamp: u64,
)
    requires
        layout_fits(cx, cy),
        mem.len() == mapping_size(cx, cy),
        y.len() == cx * cy,
        uv.len() == cx * cy / 2,
    ensures
        ({
            let stores = frame_stores(layout_slots(cx, cy), write_idx, y, uv, timestamp);
            let filled = after_stores(mem, stores.take(4));
            let n = next_idx(write_idx);
            &&& word_at(filled, READ_IDX_AT as int) == word_at(mem, READ_IDX_AT as int)
            &&& holds_frame(filled, cx, cy, n, y, uv, timestamp)
        }),
{
    let stores = frame_stores(layout_slots(cx, cy), write_idx, y, uv, timestamp);
    let n = next_idx(write_idx);
    let k = (n % 3) as int;
    let at = frame_offset(cx, cy, k);
    let pixels = at + FRAME_HEADER_SIZE;
    lemma_frame_steps(mem, stores);
    lemma_next_region(cx, cy, 0);
    lemma_next_region(cx, cy, 1);
    lemma_next_region(cx, cy, 2);
    lemma_align(0, frame_size(cx, cy) + FRAME_HEADER_SIZE);
    lemma_area(cx, cy);
    assert(layout_slots(cx, cy)[k] == at);
    assert(96 <= at && pixels + y.len() + uv.len() <= mem.len());
    let m1 = stored(mem, stores[0]);
    let m2 = stored(m1, stores[1]);
    let m3 = stored(m2, stores[2]);
    let m4 = stored(m3, stores[3]);
    lemma_stored_long(m1, at, timestamp);
    assert(m4.subrange(at, at + 4) =~= m2.subrange(at, at + 4));
    assert(m4.subrange(at + 4, at + 8) =~= m2.subrange(at + 4, at + 8));
    assert(m4.subrange(pixels, pixels + y.len()) =~= y);
    assert(m4.subrange(pixels + y.len(), pixels + y.len() + uv.len()) =~= uv);
    assert(m4.subrange(4, 8) =~= mem.subrange(4, 8));
}

/// What a reader finds once a frame is published: the header announces it, the
/// slot of its number holds it, and the other two slots and the rest of the header are
/// as they were.
pub proof fn law_frame_reads_back(
    mem: Seq<u8>,
    cx: u32,
    cy: u32,
    write_idx: u32,
    y: Seq<u8>,
    uv: Seq<u8>,
    timestamp: u64,
)
    requires
        layout_fits(cx, cy),
        mem.len() == mapping_size(cx, cy),
        y.len() == cx * cy,
        uv.len() == cx * cy / 2,
    ensures
        ({
            let stores = frame_stores(layout_slots(cx, cy), write_idx, y, uv, timestamp);
            let after = after_stores(mem, stores);
            let n = next_idx(write_idx);
            &&& after.len() == mem.len()
            &&& word_at(after, WRITE_IDX_AT as int) == n
            &&& word_at(after, READ_IDX_AT as int) == n
            &&& word_at(after, STATE_AT as int) == STATE_READY
            &&& holds_frame(after, cx, cy, n, y, uv, timestamp)
            &&& after.subrange(12, 96) == mem.subrange(12, 96)
            &&& forall|k: int|
                0 <= k < 3 && k != n % 3 ==> after.subrange(
                    #[trigger] frame_offset(cx, cy, k),
                    frame_offset(cx, cy, k + 1),
                ) == mem.subrange(frame_offset(cx, cy, k), frame_offset(cx, cy, k + 1))
        }),
{
    law_frame_is_complete_before_it_is_announced(mem, cx, cy, write_idx, y, uv, timestamp);
    let stores = frame_stores(layout_slots(cx, cy), write_idx, y, uv, timestamp);
    let n = next_idx(write_idx);
    let slot = (n % 3) as int;
    let at = frame_offset(cx, cy, slot);
    let pixels = at + FRAME_HEADER_SIZE;
    lemma_frame_steps(mem, stores);
    lemma_next_region(cx, cy, 0);
    lemma_next_region(cx, cy, 1);
    lemma_next_region(cx, cy, 2);
    lemma_align(0, frame_size(cx, cy) + FRAME_HEADER_SIZE);
    lemma_area(cx, cy);
    assert(layout_slots(cx, cy)[slot] == at);
    let m4 = after_stores(mem, stores.take(4));
    let m5 = stored(m4, stores[4]);
    let m6 = stored(m5, stores[5]);
    lemma_stored_word(mem, 0, n);
    lemma_stored_word(m4, 4, n);
    lemma_stored_word(m5, 8, STATE_READY);
    assert(m6.subrange(0, 4) =~= stored(mem, stores[0]).subrange(0, 4));
    assert(m6.subrange(4, 8) =~= m5.subrange(4, 8));
    assert(m6.subrange(at, at + 4) =~= m4.subrange(at, at + 4));
    assert(m6.subrange(at + 4, at + 8) =~= m4.subrange(at + 4, at + 8));
    assert(m6.subrange(pixels, pixels + y.len()) =~= m4.subrange(pixels, pixels + y.len()));
    assert(m6.subrange(pixels + y.len(), pixels + y.len() + uv.len()) =~= m4.subrange(
        pixels + y.len(),
        pixels + y.len() + uv.len(),
    ));
    assert(m6.subrange(12, 96) =~= mem.subrange(12, 96));
    assert forall|k: int| 0 <= k < 3 && k != n % 3 implies m6.subrange(
        #[trigger] frame_offset(cx, cy, k),
        frame_offset(cx, cy, k + 1),
    ) == mem.subrange(frame_offset(cx, cy, k), frame_offset(cx, cy, k + 1)) by {
        assert(m6.subrange(frame_offset(cx, cy, k), frame_offset(cx, cy, k + 1)) =~= mem.subrange(
            frame_offset(cx, cy, k),
            frame_offset(cx, cy, k + 1),
        ));
    }
}

/// Any three frames in a row stand in different slots, unless their number wraps
/// around from the greatest one to zero among them.
pub proof fn law_three_frames_in_a_row_stand_apart(write_idx: u32)
    requires
        write_idx != u32::MAX - 2,
        write_idx != u32::MAX - 1,
    ensures
        ({
            let first = next_idx(write_idx);
            let second = next_idx(first);
            let third = next_idx(second);
            first % 3 != second % 3 && second % 3 != third % 3 && first % 3 != third % 3
        }),
{
}

} // verus!
