//! The frame source: the settings the camera driver is started with, the
//! frames it hands out and the ledger that returns every buffer to the
//! driver's pool exactly once.

use vstd::prelude::*;

verus! {

/// Pin number that tells the driver that no reset line is wired.
pub const PIN_RESET_UNUSED: i32 = 0xff;

/// Frequency of the clock fed to the sensor, in hertz.
pub const XCLK_FREQ_HZ: i32 = 20000000;

/// Quality the sensor compresses with when it delivers JPEG frames.
pub const JPEG_QUALITY: i32 = 12;

/// Number of frame buffers in the driver's pool.
pub const FRAME_BUFFER_COUNT: usize = 1;

/// Layout of the pixels in a frame.
#[derive(Clone, Copy, Debug, PartialEq, Eq, Structural)]
pub enum PixelFormat {
    /// Two bytes per pixel, most significant byte first: five bits of red,
    /// six of green, five of blue.
    Rgb565,
    /// One byte of luminance per pixel.
    Grayscale,
    /// A compressed JPEG stream.
    Jpeg,
    /// Any other layout the sensor can produce.
    Other,
}

/// When the driver fills a frame buffer.
#[derive(Clone, Copy, Debug, PartialEq, Eq, Structural)]
pub enum GrabMode {
    /// A buffer is filled when it is free.
    WhenEmpty,
    /// The newest frame replaces older ones.
    Latest,
}

/// Where the driver allocates its frame buffers.
#[derive(Clone, Copy, Debug, PartialEq, Eq, Structural)]
pub enum FrameBufferLocation {
    /// External pseudo-static RAM.
    Psram,
    /// Internal DRAM.
    Dram,
}

/// Moment of capture, as the driver reports it.
#[derive(Clone, Copy, Debug, PartialEq, Eq, Structural)]
pub struct Timestamp {
    pub sec: i64,
    pub usec: i64,
}

/// Everything the camera driver is started with.
#[derive(Clone, Copy, Debug, PartialEq, Eq, Structural)]
pub struct CameraConfig {
    pub pin_pwdn: i32,
    pub pin_reset: i32,
    pub pin_xclk: i32,
    pub pin_sccb_sda: i32,
    pub pin_sccb_scl: i32,
    pub pin_d7: i32,
    pub pin_d6: i32,
    pub pin_d5: i32,
    pub pin_d4: i32,
    pub pin_d3: i32,
    pub pin_d2: i32,
    pub pin_d1: i32,
    pub pin_d0: i32,
    pub pin_vsync: i32,
    pub pin_href: i32,
    pub pin_pclk: i32,
    pub xclk_freq_hz: i32,
    pub ledc_timer: u32,
    pub ledc_channel: u32,
    pub pixel_format: PixelFormat,
    pub frame_size: u32,
    pub jpeg_quality: i32,
    pub fb_count: usize,
    pub grab_mode: GrabMode,
    pub fb_location: FrameBufferLocation,
}

impl CameraConfig {
    /// The settings for a sensor wired to the given pins that delivers
    /// frames of `frame_size` in `pixel_format`: no reset line, a 20 MHz
    /// sensor clock on the first timer and channel, a single frame buffer
    /// in external RAM that is filled whenever it is free.
    pub fn new(
        pin_pwdn: i32,
        pin_xclk: i32,
        pin_d0: i32,
        pin_d1: i32,
        pin_d2: i32,
        pin_d3: i32,
        pin_d4: i32,
        pin_d5: i32,
        pin_d6: i32,
        pin_d7: i32,
        pin_vsync: i32,
        pin_href: i32,
        pin_pclk: i32,
        pin_sda: i32,
        pin_scl: i32,
        pixel_format: PixelFormat,
        frame_size: u32,
    ) -> (config: CameraConfig)
        ensures
            config == (CameraConfig {
                pin_pwdn,
                pin_reset: PIN_RESET_UNUSED,
                pin_xclk,
                pin_sccb_sda: pin_sda,
                pin_sccb_scl: pin_scl,
                pin_d7,
                pin_d6,
                pin_d5,
                pin_d4,
                pin_d3,
                pin_d2,
                pin_d1,
                pin_d0,
                pin_vsync,
                pin_href,
                pin_pclk,
                xclk_freq_hz: XCLK_FREQ_HZ,
                ledc_timer: 0,
                ledc_channel: 0,
                pixel_format,
                frame_size,
                jpeg_quality: JPEG_QUALITY,
                fb_count: FRAME_BUFFER_COUNT,
                grab_mode: GrabMode::WhenEmpty,
                fb_location: FrameBufferLocation::Psram,
            }),
    {
        CameraConfig {
            pin_pwdn,
            pin_reset: PIN_RESET_UNUSED,
            pin_xclk,
            pin_sccb_sda: pin_sda,
            pin_sccb_scl: pin_scl,
            pin_d7,
            pin_d6,
            pin_d5,
            pin_d4,
            pin_d3,
            pin_d2,
            pin_d1,
            pin_d0,
            pin_vsync,
            pin_href,
            pin_pclk,
            xclk_freq_hz: XCLK_FREQ_HZ,
            ledc_timer: 0,
            ledc_channel: 0,
            pixel_format,
            frame_size,
            jpeg_quality: JPEG_QUALITY,
            fb_count: FRAME_BUFFER_COUNT,
            grab_mode: GrabMode::WhenEmpty,
            fb_location: FrameBufferLocation::Psram,
        }
    }
}

/// Why the camera driver could not be started.
#[derive(Clone, Copy, Debug, PartialEq, Eq, Structural)]
pub enum HardwareInitError {
    /// The driver refused the settings or could not allocate its pool; the
    /// payload is the status it reported.
    DriverRejected(i32),
}

/// What the driver delivers for one captured frame.
pub struct RawFrame {
    pub width: usize,
    pub height: usize,
    pub format: PixelFormat,
    pub data: Vec<u8>,
    pub timestamp: Timestamp,
}

/// Mathematical content of a frame.
pub struct FrameView {
    pub id: u64,
    pub width: nat,
    pub height: nat,
    pub format: PixelFormat,
    pub data: Seq<u8>,
    pub timestamp: Timestamp,
}

/// One captured frame, held by exactly one owner. The handle can be neither
/// copied nor cloned, and giving it back consumes it.
pub struct FrameBuffer {
    id: u64,
    width: usize,
    height: usize,
    format: PixelFormat,
    data: Vec<u8>,
    timestamp: Timestamp,
}

impl View for FrameBuffer {
    type V = FrameView;

    closed spec fn view(&self) -> FrameView {
        FrameView {
            id: self.id,
            width: self.width as nat,
            height: self.height as nat,
            format: self.format,
            data: self.data@,
            timestamp: self.timestamp,
        }
    }
}

impl FrameBuffer {
    /// The bytes of the frame, as the sensor wrote them.
    pub fn data(&self) -> (bytes: &[u8])
        ensures
            bytes@ == self@.data,
    {
        self.data.as_slice()
    }

    /// Width of the frame in pixels.
    pub fn width(&self) -> (w: usize)
        ensures
            w == self@.width,
    {
        self.width
    }

    /// Height of the frame in pixels.
    pub fn height(&self) -> (h: usize)
        ensures
            h == self@.height,
    {
        self.height
    }

    /// Layout of the pixels in `data`.
    pub fn format(&self) -> (f: PixelFormat)
        ensures
            f == self@.format,
    {
        self.format
    }

    /// Moment at which the frame was captured.
    pub fn timestamp(&self) -> (t: Timestamp)
        ensures
            t == self@.timestamp,
    {
        self.timestamp
    }

    /// Serial number of the handle, unique among the handles of one camera.
    pub fn id(&self) -> (id: u64)
        ensures
            id == self@.id,
    {
        self.id
    }

    /// Gives the frame back to the camera it came from. The result says
    /// whether the driver has to take its buffer back now: `true` exactly
    /// when the handle was outstanding, after which it is so no longer.
    pub fn fb_return(self, camera: &mut Camera) -> (fire: bool)
        requires
            old(camera).wf(),
        ensures
            final(camera).wf(),
            fire == old(camera)@.live.contains(self@.id),
            final(camera)@ == old(camera)@.give_back(self@.id),
    {
        camera.take_back(self.id)
    }
}

/// Number of times `id` occurs in `s`.
pub open spec fn occurrences(s: Seq<u64>, id: u64) -> nat
    decreases s.len(),
{
    if s.len() == 0 {
        0
    } else {
        occurrences(s.drop_last(), id) + if s.last() == id {
            1nat
        } else {
            0nat
        }
    }
}

/// What can happen to the pool of frame buffers.
pub enum PoolEvent {
    /// The driver delivered a frame and a handle was made for it.
    Acquired,
    /// The handle with this serial number was given back.
    Returned(u64),
}

/// Mathematical content of a camera: its settings and the ledger of its
/// frame buffers.
pub struct PoolView {
    /// The settings the camera was started with.
    pub config: CameraConfig,
    /// Number of handles handed out so far.
    pub issued: nat,
    /// Serial numbers of the handles that are outstanding, oldest first.
    pub live: Seq<u64>,
    /// Serial numbers for which the driver took its buffer back, in order.
    pub released: Seq<u64>,
}

impl PoolView {
    /// The ledger after handing out one more handle.
    pub open spec fn hand_out(self) -> PoolView {
        PoolView { issued: self.issued + 1, live: self.live.push(self.issued as u64), ..self }
    }

    /// The ledger after the handle `id` came back: an outstanding handle
    /// moves to the released ones, any other leaves the ledger as it is.
    pub open spec fn give_back(self, id: u64) -> PoolView {
        if self.live.contains(id) {
            PoolView {
                live: self.live.remove(self.live.index_of(id)),
                released: self.released.push(id),
                ..self
            }
        } else {
            self
        }
    }

    /// How often the driver took back the buffer of handle `id`.
    pub open spec fn release_count(self, id: u64) -> nat {
        occurrences(self.released, id)
    }

    /// A camera that has just been started with `config`.
    pub open spec fn fresh(config: CameraConfig) -> PoolView {
        PoolView { config, issued: 0, live: Seq::empty(), released: Seq::empty() }
    }

    /// The ledger after one event.
    pub open spec fn apply(self, event: PoolEvent) -> PoolView {
        match event {
            PoolEvent::Acquired => if self.issued < u64::MAX {
                self.hand_out()
            } else {
                self
            },
            PoolEvent::Returned(id) => self.give_back(id),
        }
    }

    /// The ledger after a sequence of events, oldest first.
    pub open spec fn replay(self, events: Seq<PoolEvent>) -> PoolView
        decreases events.len(),
    {
        if events.len() == 0 {
            self
        } else {
            self.replay(events.drop_last()).apply(events.last())
        }
    }

    /// Every handle handed out is either outstanding or released, never
    /// both, and nothing is listed twice.
    pub open spec fn wf(self) -> bool {
        &&& self.issued <= u64::MAX
        &&& self.live.no_duplicates()
        &&& self.released.no_duplicates()
        &&& forall|id: u64| self.live.contains(id) ==> id < self.issued
        &&& forall|id: u64| self.released.contains(id) ==> id < self.issued
        &&& forall|id: u64| !(self.live.contains(id) && self.released.contains(id))
        &&& forall|id: u64|
            id < self.issued ==> self.live.contains(id) || self.released.contains(id)
    }
}

/// The started camera: its settings and the ledger of the frame buffers it
/// has handed out.
pub struct Camera {
    config: CameraConfig,
    issued: u64,
    live: Vec<u64>,
    released: Ghost<Seq<u64>>,
}

impl View for Camera {
    type V = PoolView;

    closed spec fn view(&self) -> PoolView {
        PoolView {
            config: self.config,
            issued: self.issued as nat,
            live: self.live@,
            released: self.released@,
        }
    }
}

impl Camera {
    /// The ledger is consistent.
    pub open spec fn wf(&self) -> bool {
        self@.wf()
    }

    /// Takes note of the outcome of starting the driver with `config`:
    /// a camera with an empty ledger when the driver came up, the driver's
    /// status as an error when it did not.
    pub fn new(config: CameraConfig, init: Result<(), i32>) -> (camera: Result<
        Camera,
        HardwareInitError,
    >)
        ensures
            match init {
                Ok(_) => camera is Ok && camera->Ok_0.wf() && camera->Ok_0@ == PoolView::fresh(
                    config,
                ),
                Err(code) => camera == Err::<Camera, HardwareInitError>(
                    HardwareInitError::DriverRejected(code),
                ),
            },
    {
        match init {
            Ok(_) => {
                let camera = Camera {
                    config,
                    issued: 0,
                    live: Vec::new(),
                    released: Ghost(Seq::empty()),
                };
                assert(camera@.live =~= Seq::<u64>::empty());
                Ok(camera)
            },
            Err(code) => Err(HardwareInitError::DriverRejected(code)),
        }
    }

    /// The settings the camera was started with.
    pub fn config(&self) -> (config: CameraConfig)
        ensures
            config == self@.config,
    {
        self.config
    }

    /// Number of handles that are outstanding.
    pub fn outstanding(&self) -> (n: usize)
        ensures
            n == self@.live.len(),
    {
        self.live.len()
    }

    /// Number of handles handed out so far.
    pub fn issued(&self) -> (n: u64)
        ensures
            n == self@.issued,
    {
        self.issued
    }

    /// Wraps what the driver delivered into an owned handle. `None` from the
    /// driver stays `None` and leaves the ledger alone; a frame becomes a
    /// handle with the next serial number, entered as outstanding. Once all
    /// serial numbers are used up no handle is made.
    pub fn get_framebuffer(&mut self, raw: Option<RawFrame>) -> (frame: Option<FrameBuffer>)
        requires
            old(self).wf(),
        ensures
            final(self).wf(),
            frame is Some <==> raw is Some && old(self)@.issued < u64::MAX,
            frame is None ==> final(self)@ == old(self)@,
            frame is Some ==> {
                &&& final(self)@ == old(self)@.hand_out()
                &&& frame->Some_0@ == (FrameView {
                    id: old(self)@.issued as u64,
                    width: raw->Some_0.width as nat,
                    height: raw->Some_0.height as nat,
                    format: raw->Some_0.format,
                    data: raw->Some_0.data@,
                    timestamp: raw->Some_0.timestamp,
                })
            },
    {
        match raw {
            None => None,
            Some(raw) => {
                if self.issued == u64::MAX {
                    return None;
                }
                let id = self.issued;
                proof {
                    lemma_hand_out_wf(self@);
                }
                self.live.push(id);
                self.issued = id + 1;
                Some(
                    FrameBuffer {
                        id,
                        width: raw.width,
                        height: raw.height,
                        format: raw.format,
                        data: raw.data,
                        timestamp: raw.timestamp,
                    },
                )
            },
        }
    }

    /// Strikes handle `id` from the outstanding ones, if it is among them.
    fn take_back(&mut self, id: u64) -> (fire: bool)
        requires
            old(self).wf(),
        ensures
            final(self).wf(),
            fire == old(self)@.live.contains(id),
            final(self)@ == old(self)@.give_back(id),
    {
        let mut k: usize = 0;
        while k < self.live.len()
            invariant
                *self == *old(self),
                self.wf(),
                k <= self.live@.len(),
                forall|j: int| 0 <= j < k ==> self.live@[j] != id,
            decreases self.live@.len() - k,
        {
            if self.live[k] == id {
                proof {
                    let before = self@;
                    let after = before.give_back(id);
                    assert(before.live[k as int] == id);
                    assert(before.live.contains(id));
                    let j = before.live.index_of(id);
                    assert(0 <= j < before.live.len() && before.live[j] == id);
                    assert(j == k as int);
                    lemma_give_back_wf(before, id);
                }
                self.live.remove(k);
                self.released = Ghost(self.released@.push(id));
                return true;
            }
            k = k + 1;
        }
        false
    }
}

/// Giving a handle back keeps the ledger consistent.
pub proof fn lemma_give_back_wf(pool: PoolView, id: u64)
    requires
        pool.wf(),
    ensures
        pool.give_back(id).wf(),
{
    if pool.live.contains(id) {
        let k = pool.live.index_of(id);
        let after = pool.give_back(id);
        assert forall|x: u64| after.live.contains(x) <==> (pool.live.contains(x) && x != id) by {
            if after.live.contains(x) {
                let j = choose|j: int| 0 <= j < after.live.len() && after.live[j] == x;
                if j < k {
                    assert(pool.live[j] == x);
                } else {
                    assert(pool.live[j + 1] == x);
                }
            }
            if pool.live.contains(x) && x != id {
                let j = pool.live.index_of(x);
                if j < k {
                    assert(after.live[j] == x);
                } else {
                    assert(after.live[j - 1] == x);
                }
            }
        }
        assert forall|x: u64| after.released.contains(x) <==> (pool.released.contains(x) || x
            == id) by {
            if after.released.contains(x) {
                let j = choose|j: int| 0 <= j < after.released.len() && after.released[j] == x;
                if j < pool.released.len() {
                    assert(pool.released[j] == x);
                }
            }
            if pool.released.contains(x) {
                let j = pool.released.index_of(x);
                assert(after.released[j] == x);
            }
            if x == id {
                assert(after.released[after.released.len() - 1] == x);
            }
        }
        assert(after.live.no_duplicates()) by {
            assert forall|i: int, j: int|
                0 <= i < after.live.len() && 0 <= j < after.live.len() && i != j implies
                after.live[i] != after.live[j] by {
                let pi = if i < k { i } else { i + 1 };
                let pj = if j < k { j } else { j + 1 };
                assert(after.live[i] == pool.live[pi]);
                assert(after.live[j] == pool.live[pj]);
            }
        }
        assert(!pool.released.contains(id));
        assert(after.released.no_duplicates());
    }
}

/// Handing out a handle keeps the ledger consistent.
pub proof fn lemma_hand_out_wf(pool: PoolView)
    requires
        pool.wf(),
        pool.issued < u64::MAX,
    ensures
        pool.hand_out().wf(),
{
    let id = pool.issued as u64;
    let after = pool.hand_out();
    assert(!pool.live.contains(id));
    assert(after.live.no_duplicates());
    assert forall|x: u64| after.live.contains(x) implies x < after.issued by {
        if x != id {
            assert(pool.live.contains(x));
        }
    }
    assert forall|x: u64| !(after.live.contains(x) && after.released.contains(x)) by {
        if after.live.contains(x) && x != id {
            assert(pool.live.contains(x));
        }
    }
    assert forall|x: u64| x < after.issued implies after.live.contains(x)
        || after.released.contains(x) by {
        if x == id {
            assert(after.live[after.live.len() - 1] == id);
        } else {
            if pool.live.contains(x) {
                let k = pool.live.index_of(x);
                assert(after.live[k] == x);
            }
        }
    }
}

/// In a list without repetitions a value occurs once or not at all.
pub proof fn lemma_occurrences_no_duplicates(s: Seq<u64>, id: u64)
    requires
        s.no_duplicates(),
    ensures
        occurrences(s, id) == if s.contains(id) { 1nat } else { 0nat },
    decreases s.len(),
{
    if s.len() > 0 {
        let init = s.drop_last();
        lemma_occurrences_no_duplicates(init, id);
        if init.contains(id) {
            let j = init.index_of(id);
            assert(s[j] == id);
            assert(s.last() != id);
            assert(s.contains(id));
        } else if s.last() == id {
            assert(s[s.len() - 1] == id);
        } else {
            if s.contains(id) {
                let j = s.index_of(id);
                assert(init[j] == id);
            }
        }
    }
}

/// Replaying events keeps a ledger consistent.
pub proof fn lemma_replay_wf(pool: PoolView, events: Seq<PoolEvent>)
    requires
        pool.wf(),
    ensures
        pool.replay(events).wf(),
    decreases events.len(),
{
    if events.len() > 0 {
        lemma_replay_wf(pool, events.drop_last());
        let before = pool.replay(events.drop_last());
        match events.last() {
            PoolEvent::Acquired => {
                if before.issued < u64::MAX {
                    lemma_hand_out_wf(before);
                }
            },
            PoolEvent::Returned(id) => {
                lemma_give_back_wf(before, id);
            },
        }
    }
}

/// Single release: whatever sequence of acquisitions and returns a camera
/// goes through, the driver takes back the buffer of every handle that was
/// handed out and is no longer outstanding exactly once, and that of any
/// other handle never. In particular no buffer is taken back twice, and
/// once nothing is outstanding every buffer handed out has been taken back.
pub proof fn law_single_release(config: CameraConfig, events: Seq<PoolEvent>, id: u64)
    ensures
        ({
            let pool = PoolView::fresh(config).replay(events);
            &&& pool.config == config
            &&& pool.wf()
            &&& pool.release_count(id) == if id < pool.issued && !pool.live.contains(id) {
                1nat
            } else {
                0nat
            }
            &&& pool.released.len() + pool.live.len() == pool.issued
        }),
{
    let pool = PoolView::fresh(config).replay(events);
    lemma_replay_wf(PoolView::fresh(config), events);
    lemma_replay_keeps_config(PoolView::fresh(config), events);
    lemma_occurrences_no_duplicates(pool.released, id);
    lemma_ledger_balance(pool);
}

/// Handing out and taking back frames leaves the settings alone.
pub proof fn lemma_replay_keeps_config(pool: PoolView, events: Seq<PoolEvent>)
    ensures
        pool.replay(events).config == pool.config,
    decreases events.len(),
{
    if events.len() > 0 {
        lemma_replay_keeps_config(pool, events.drop_last());
    }
}

/// In a consistent ledger the outstanding and the released handles together
/// are as many as were handed out.
pub proof fn lemma_ledger_balance(pool: PoolView)
    requires
        pool.wf(),
    ensures
        pool.released.len() + pool.live.len() == pool.issued,
{
    let all = pool.live + pool.released;
    assert(all.no_duplicates()) by {
        assert forall|i: int, j: int| 0 <= i < all.len() && 0 <= j < all.len() && i != j implies all[i]
            != all[j] by {
            if i < pool.live.len() && j >= pool.live.len() {
                assert(pool.live.contains(all[i]));
                assert(pool.released[j - pool.live.len()] == all[j]);
                assert(pool.released.contains(all[j]));
            }
            if j < pool.live.len() && i >= pool.live.len() {
                assert(pool.live.contains(all[j]));
                assert(pool.released[i - pool.live.len()] == all[i]);
                assert(pool.released.contains(all[i]));
            }
        }
    }
    let ids = Set::new(|x: u64| x < pool.issued);
    assert(all.to_set() =~= ids) by {
        assert forall|x: u64| all.to_set().contains(x) <==> ids.contains(x) by {
            if all.contains(x) {
                let i = all.index_of(x);
                if i < pool.live.len() {
                    assert(pool.live[i] == x);
                    assert(pool.live.contains(x));
                } else {
                    assert(pool.released[i - pool.live.len()] == x);
                    assert(pool.released.contains(x));
                }
            }
            if x < pool.issued {
                if pool.live.contains(x) {
                    let i = pool.live.index_of(x);
                    assert(all[i] == x);
                } else {
                    let i = pool.released.index_of(x);
                    assert(all[i + pool.live.len()] == x);
                }
            }
        }
    }
    all.unique_seq_to_set();
    lemma_ids_below(pool.issued);
}

/// There are exactly `n` serial numbers below `n`.
proof fn lemma_ids_below(n: nat)
    requires
        n <= u64::MAX,
    ensures
        Set::new(|x: u64| x < n).finite(),
        Set::new(|x: u64| x < n).len() == n,
    decreases n,
{
    let s = Set::new(|x: u64| x < n);
    if n == 0 {
        assert(s =~= Set::<u64>::empty());
    } else {
        let m = (n - 1) as nat;
        lemma_ids_below(m);
        let t = Set::new(|x: u64| x < m);
        assert(s =~= t.insert(m as u64));
    }
}

} // verus!
