//! Palette-mapping image recoloring.
//!
//! The library maps every pixel of an RGBA buffer to a color drawn from a
//! fixed target palette, under a choice of mapping strategies, with optional
//! progress accounting and optional per-pixel memoization.

use vstd::prelude::*;

pub mod mappers;
pub mod memo;
pub mod palette;
pub mod procutils;

use rayon::iter::IntoParallelRefIterator;
use rayon::iter::ParallelIterator;

use crate::palette::Rgbx;
use crate::palette::nord;
use crate::palette::nord_seq;
use crate::procutils::partition;
use crate::procutils::ranges_ok;
use crate::procutils::subdivide;

verus! {

/// A mapping strategy: a per-pixel function that selects the output pixel
/// for one input pixel, drawn from (or derived via) the palette.
///
/// Each implementation describes its result with the relation `predicts`:
/// `predicts(palette, pixel, out)` holds exactly of the outputs `predict`
/// may return. Deterministic strategies pin the output down to one value;
/// a randomized tie-break leaves a small set of permitted outputs.
///
/// `predict` takes `&mut self` so that a strategy carrying mutable state
/// (the memoization cache) can account for that state in its contract;
/// stateless strategies leave `self` untouched. A strategy that is safe to
/// share by reference across parallel workers reports `shareable` and also
/// offers `predict_shared`.
pub trait Mapper: Sized + Send + Sync {
    /// What the strategy demands of the palette before it can run (for
    /// example: non-empty, or covering every color class).
    spec fn req(&self, palette: Seq<Rgbx>) -> bool;

    /// Internal consistency of the strategy's own state with respect to the
    /// palette of the current run; `true` for stateless strategies.
    spec fn inv(&self, palette: Seq<Rgbx>) -> bool;

    /// Whether the strategy may be shared by reference across parallel
    /// workers.
    spec fn shareable(&self) -> bool;

    /// The prediction relation: which outputs `predict` may return for a
    /// given palette and pixel.
    spec fn predicts(&self, palette: Seq<Rgbx>, px: Seq<u8>, r: Seq<u8>) -> bool;

    /// Runtime test for `req`, so that a processing run can reject a
    /// mismatched configuration up front.
    fn req_check(&self, palette: &[Rgbx]) -> (b: bool)
        ensures
            b == self.req(palette@),
    ;

    /// Runtime test for `shareable`.
    fn is_shareable(&self) -> (b: bool)
        ensures
            b == self.shareable(),
    ;

    /// Map one pixel.
    fn predict(&mut self, palette: &[Rgbx], pixel: &[u8; 4]) -> (r: [u8; 4])
        requires
            old(self).req(palette@),
            old(self).inv(palette@),
        ensures
            final(self).predicts(palette@, pixel@, r@),
            final(self).inv(palette@),
            final(self).req(palette@) == old(self).req(palette@),
            final(self).shareable() == old(self).shareable(),
            forall|px: Seq<u8>, rr: Seq<u8>|
                final(self).predicts(palette@, px, rr) == #[trigger] old(self).predicts(
                    palette@,
                    px,
                    rr,
                ),
    ;

    /// Map one pixel through a shared reference; only available to
    /// shareable strategies.
    fn predict_shared(&self, palette: &[Rgbx], pixel: &[u8; 4]) -> (r: [u8; 4])
        requires
            self.shareable(),
            self.req(palette@),
            self.inv(palette@),
        ensures
            self.predicts(palette@, pixel@, r@),
    ;
}

/// A strategy is deterministic on a palette when its prediction relation
/// admits at most one output per pixel.
pub open spec fn deterministic_on<M: Mapper>(m: M, palette: Seq<Rgbx>) -> bool {
    forall|px: Seq<u8>, r1: Seq<u8>, r2: Seq<u8>|
        #[trigger] m.predicts(palette, px, r1) && #[trigger] m.predicts(palette, px, r2) ==> r1
            == r2
}

/// Progress accounting for one processing run: a monotonically
/// non-decreasing count of processed pixels out of a fixed total. One
/// tracker is valid for exactly one run.
#[derive(Debug)]
pub struct Tracker {
    /// How many pixels have been processed so far.
    pub current: usize,
    /// How many pixels the run comprises.
    pub total: usize,
}

/// The percentage a tracker reports: `100 * current / total`. A run over
/// zero pixels is complete from the start.
pub open spec fn percentage_spec(t: Tracker) -> int {
    if t.total == 0 {
        100
    } else {
        t.current * 100 / t.total as int
    }
}

impl Tracker {
    /// How many pixels have been processed so far.
    pub fn current(&self) -> (c: usize)
        ensures
            c == self.current,
    {
        self.current
    }

    /// How many pixels the run comprises.
    pub fn total(&self) -> (t: usize)
        ensures
            t == self.total,
    {
        self.total
    }

    /// The whole-number percentage of the run completed so far; between 0
    /// and 100 inclusive, and 100 exactly when every pixel is processed.
    pub fn percentage(&self) -> (p: usize)
        requires
            self.current <= self.total,
        ensures
            p == percentage_spec(*self),
            0 <= p <= 100,
            (p == 100 && self.total > 0) ==> self.current == self.total,
    {
        if self.total == 0 {
            100
        } else {
            let wide: u128 = (self.current as u128) * 100 / (self.total as u128);
            proof {
                vstd::arithmetic::div_mod::lemma_div_is_ordered(
                    self.current * 100,
                    self.total * 100,
                    self.total as int,
                );
                vstd::arithmetic::div_mod::lemma_div_by_multiple(100, self.total as int);
                if self.current < self.total {
                    assert(self.current * 100 < self.total as int * 100) by (nonlinear_arith)
                        requires
                            self.current < self.total,
                    ;
                    vstd::arithmetic::div_mod::lemma_multiply_divide_lt(
                        self.current * 100,
                        self.total as int,
                        100,
                    );
                }
            }
            wide as usize
        }
    }

    /// Record one processed pixel. The count never decreases and never
    /// passes the total.
    pub fn notify(&mut self)
        requires
            old(self).current < old(self).total,
        ensures
            final(self).current == old(self).current + 1,
            final(self).total == old(self).total,
    {
        self.current += 1;
    }

    /// Record a batch of processed pixels, as a reader draining queued
    /// signals would. The count never decreases and never passes the total.
    pub fn record(&mut self, signals: usize)
        requires
            old(self).current + signals <= old(self).total,
        ensures
            final(self).current == old(self).current + signals,
            final(self).total == old(self).total,
    {
        self.current += signals;
    }
}

/// A positive worker count for the fixed-thread-count modes.
#[derive(Debug, Clone, Copy, PartialEq, Eq, Structural)]
pub struct ThreadCount(pub usize);

impl ThreadCount {
    /// A worker count; zero is rejected at configuration time.
    pub fn new(val: usize) -> (r: Option<ThreadCount>)
        ensures
            r is Some <==> val >= 1,
            r matches Some(tc) ==> tc.0 == val,
    {
        if val >= 1 {
            Some(ThreadCount(val))
        } else {
            None
        }
    }

    /// The count itself.
    pub fn get(&self) -> (n: usize)
        ensures
            n == self.0,
    {
        self.0
    }
}

impl Default for ThreadCount {
    /// Two workers, for when the machine's parallelism is not known.
    fn default() -> (r: ThreadCount)
        ensures
            r.0 == 2,
    {
        ThreadCount(2)
    }
}

/// How a processing run schedules its per-pixel work.
///
/// The chunked modes (`Single`, `Auto`, `Custom`, `Extreme`) differ only in
/// how the buffer is partitioned; this library computes their chunks one
/// after another in the calling thread, in chunk order. Only the
/// data-parallel mode fans work out to other threads, and only for a
/// strategy that is shareable across workers.
#[derive(Debug, Clone, Copy)]
pub enum Threads {
    /// A sequential fold over every pixel.
    Single,
    /// One contiguous chunk per unit of configured parallelism.
    Auto,
    /// The work-stealing data-parallel scheduler.
    Rayon,
    /// One contiguous chunk per requested worker.
    Custom(ThreadCount),
    /// Repeated midpoint bisection: many more, smaller chunks.
    Extreme,
}

impl Default for Threads {
    /// Chunked execution at the configured parallelism.
    fn default() -> (r: Threads)
        ensures
            r is Auto,
    {
        Threads::Auto
    }
}

/// The mode is runnable: a custom worker count is positive.
pub open spec fn threads_wf(t: Threads) -> bool {
    match t {
        Threads::Custom(tc) => tc.0 >= 1,
        _ => true,
    }
}

/// A rejected configuration, reported before any processing begins.
#[derive(Debug, Clone, Copy, PartialEq, Eq, Structural)]
pub enum ConfigError {
    /// The buffer length does not equal width times height.
    Dimensions,
    /// The strategy cannot run on the configured palette.
    Strategy,
    /// A worker count is zero.
    Threads,
}

/// The configuration of a processing run: the strategy, the scheduling
/// mode, the target palette, and the machine parallelism the automatic
/// modes scale with.
#[derive(Debug)]
pub struct ProcOptions<M: Mapper> {
    /// The mapping strategy.
    pub mapper: M,
    /// The scheduling mode.
    pub threads: Threads,
    /// The target palette.
    pub palette: Vec<Rgbx>,
    /// The machine parallelism the automatic modes scale with; detecting it
    /// is the caller's business.
    pub parallelism: ThreadCount,
}

/// The configuration is runnable.
pub open spec fn options_wf<M: Mapper>(conf: ProcOptions<M>) -> bool {
    &&& conf.mapper.req(conf.palette@)
    &&& threads_wf(conf.threads)
    &&& conf.parallelism.0 >= 1
}

impl<M: Mapper> ProcOptions<M> {
    /// A configuration with the given strategy, the built-in palette, and
    /// the default scheduling.
    pub fn new(mapper: M) -> (r: ProcOptions<M>)
        ensures
            r.mapper == mapper,
            r.threads is Auto,
            r.palette@ == nord_seq(),
            r.parallelism.0 == 2,
    {
        ProcOptions { mapper, threads: Threads::Auto, palette: nord(), parallelism: ThreadCount(2) }
    }

    /// The same configuration driving a different strategy.
    pub fn mapper<M2: Mapper>(self, mapper: M2) -> (r: ProcOptions<M2>)
        ensures
            r.mapper == mapper,
            r.threads == self.threads,
            r.palette == self.palette,
            r.parallelism == self.parallelism,
    {
        ProcOptions {
            mapper,
            threads: self.threads,
            palette: self.palette,
            parallelism: self.parallelism,
        }
    }

    /// A copy of this configuration driving a different strategy.
    pub fn copy_with_mapper<M2: Mapper>(&self, mapper: M2) -> (r: ProcOptions<M2>)
        ensures
            r.mapper == mapper,
            r.threads == self.threads,
            r.palette@ == self.palette@,
            r.parallelism == self.parallelism,
    {
        let mut palette: Vec<Rgbx> = Vec::new();
        let n = self.palette.len();
        let mut i: usize = 0;
        while i < n
            invariant
                i <= n == self.palette@.len(),
                palette@ =~= self.palette@.take(i as int),
            decreases n - i,
        {
            palette.push(self.palette[i]);
            i += 1;
        }
        proof {
            assert(self.palette@.take(n as int) =~= self.palette@);
        }
        ProcOptions { mapper, threads: self.threads, palette, parallelism: self.parallelism }
    }

    /// Choose the scheduling mode.
    pub fn threads(self, threads: Threads) -> (r: ProcOptions<M>)
        ensures
            r.threads == threads,
            r.mapper == self.mapper,
            r.palette == self.palette,
            r.parallelism == self.parallelism,
    {
        ProcOptions {
            mapper: self.mapper,
            threads,
            palette: self.palette,
            parallelism: self.parallelism,
        }
    }

    /// Choose the target palette.
    pub fn palette(self, palette: Vec<Rgbx>) -> (r: ProcOptions<M>)
        ensures
            r.palette == palette,
            r.mapper == self.mapper,
            r.threads == self.threads,
            r.parallelism == self.parallelism,
    {
        ProcOptions {
            mapper: self.mapper,
            threads: self.threads,
            palette,
            parallelism: self.parallelism,
        }
    }

    /// Tell the automatic modes how parallel the machine is.
    pub fn parallelism(self, parallelism: ThreadCount) -> (r: ProcOptions<M>)
        ensures
            r.parallelism == parallelism,
            r.mapper == self.mapper,
            r.threads == self.threads,
            r.palette == self.palette,
    {
        ProcOptions { mapper: self.mapper, threads: self.threads, palette: self.palette, parallelism }
    }

    /// Attach an in-memory RGBA pixel buffer of the given dimensions,
    /// checking the configuration. Every rejected configuration is reported
    /// here, before any processing: a mismatched buffer shape first, then a
    /// zero worker count, then a palette the strategy cannot run on.
    pub fn load_buffer(self, pixels: Vec<[u8; 4]>, width: u32, height: u32) -> (r: Result<
        Processor<M>,
        ConfigError,
    >)
        requires
            self.mapper.inv(self.palette@),
        ensures
            r is Ok <==> {
                &&& pixels@.len() == width * height
                &&& threads_wf(self.threads) && self.parallelism.0 >= 1
                &&& self.mapper.req(self.palette@)
            },
            r matches Ok(p) ==> p == (Processor { conf: self, pixels, width, height }),
            r is Err ==> r == (if pixels@.len() != width * height {
                Err::<Processor<M>, ConfigError>(ConfigError::Dimensions)
            } else if !(threads_wf(self.threads) && self.parallelism.0 >= 1) {
                Err::<Processor<M>, ConfigError>(ConfigError::Threads)
            } else {
                Err::<Processor<M>, ConfigError>(ConfigError::Strategy)
            }),
    {
        proof {
            assert((width as int) * (height as int) <= 0xffffffff * 0xffffffff)
                by (nonlinear_arith)
                requires
                    width <= 0xffffffffu32,
                    height <= 0xffffffffu32,
            ;
        }
        if (pixels.len() as u64) != (width as u64) * (height as u64) {
            return Err(ConfigError::Dimensions);
        }
        let threads_ok = match self.threads {
            Threads::Custom(tc) => tc.get() >= 1,
            _ => true,
        };
        if !(threads_ok && self.parallelism.get() >= 1) {
            return Err(ConfigError::Threads);
        }
        if !self.mapper.req_check(self.palette.as_slice()) {
            return Err(ConfigError::Strategy);
        }
        Ok(Processor { conf: self, pixels, width, height })
    }
}

impl Default for ProcOptions<crate::mappers::Nearest> {
    /// Nearest-neighbor mapping onto the built-in palette, with the default
    /// scheduling.
    fn default() -> (r: ProcOptions<crate::mappers::Nearest>)
        ensures
            r.mapper is Nearest,
            r.threads is Auto,
            r.palette@ == nord_seq(),
            r.parallelism.0 == 2,
    {
        ProcOptions::new(crate::mappers::Nearest)
    }
}

/// A processing run: a configuration together with the pixel buffer and its
/// dimensions.
#[derive(Debug)]
pub struct Processor<M: Mapper> {
    /// The configuration of the run.
    pub conf: ProcOptions<M>,
    /// The pixel buffer, row-major, one entry per pixel.
    pub pixels: Vec<[u8; 4]>,
    /// The width of the image.
    pub width: u32,
    /// The height of the image.
    pub height: u32,
}

/// The processor is runnable: the configuration is valid, the strategy's
/// state is consistent with the palette, and the buffer matches the
/// dimensions.
pub open spec fn processor_wf<M: Mapper>(p: Processor<M>) -> bool {
    &&& options_wf(p.conf)
    &&& p.conf.mapper.inv(p.conf.palette@)
    &&& p.pixels@.len() == p.width * p.height
}

/// The four bytes of pixel `i` of a raw RGBA buffer.
pub open spec fn pixel_bytes(raw: Seq<u8>, i: int) -> Seq<u8> {
    raw.subrange(4 * i, 4 * i + 4)
}

/// What a completed run guarantees: the output buffer has exactly one RGBA
/// quadruple per input pixel, in input order, and the bytes at position `i`
/// are a permitted prediction for input pixel `i` alone.
pub open spec fn processed_ok<M: Mapper>(p: Processor<M>, out: ProcessedData) -> bool {
    &&& out.dimen == (p.width, p.height)
    &&& out.raw@.len() == 4 * p.pixels@.len()
    &&& forall|i: int|
        0 <= i < p.pixels@.len() ==> p.conf.mapper.predicts(
            p.conf.palette@,
            p.pixels@[i]@,
            #[trigger] pixel_bytes(out.raw@, i),
        )
}

/// Relies on rayon's `par_iter().map().collect()` over a vector: the
/// closure runs exactly once per element and the results are collected in
/// input order. The closure itself only calls the strategy's verified
/// shared prediction.
#[verifier::external_body]
fn par_map<M: Mapper>(mapper: &M, palette: &[Rgbx], pixels: &Vec<[u8; 4]>) -> (out: Vec<[u8; 4]>)
    requires
        mapper.shareable(),
        mapper.req(palette@),
        mapper.inv(palette@),
    ensures
        out@.len() == pixels@.len(),
        forall|i: int| 0 <= i < out@.len() ==> mapper.predicts(palette@, pixels@[i]@, out@[i]@),
{
    pixels.par_iter().map(|px| mapper.predict_shared(palette, px)).collect()
}

/// Map the pixels of `start..end`, appending the outputs to `out` and
/// recording one progress signal per pixel.
fn map_range<M: Mapper>(
    mapper: &mut M,
    palette: &[Rgbx],
    pixels: &Vec<[u8; 4]>,
    start: usize,
    end: usize,
    out: &mut Vec<[u8; 4]>,
    t: &mut Tracker,
)
    requires
        old(mapper).req(palette@),
        old(mapper).inv(palette@),
        start <= end <= pixels@.len(),
        old(out)@.len() == start,
        forall|i: int|
            0 <= i < start ==> old(mapper).predicts(palette@, pixels@[i]@, #[trigger] old(out)@[i]@),
        old(t).current + (end - start) <= old(t).total,
    ensures
        final(mapper).req(palette@),
        final(mapper).inv(palette@),
        forall|px: Seq<u8>, rr: Seq<u8>|
            final(mapper).predicts(palette@, px, rr) == #[trigger] old(mapper).predicts(
                palette@,
                px,
                rr,
            ),
        final(out)@.len() == end,
        forall|i: int|
            0 <= i < end ==> final(mapper).predicts(palette@, pixels@[i]@, #[trigger] final(out)@[i]@),
        final(t).current == old(t).current + (end - start),
        final(t).total == old(t).total,
{
    let mut i = start;
    while i < end
        invariant
            start <= i <= end <= pixels@.len(),
            mapper.req(palette@),
            mapper.inv(palette@),
            forall|px: Seq<u8>, rr: Seq<u8>|
                mapper.predicts(palette@, px, rr) == #[trigger] old(mapper).predicts(
                    palette@,
                    px,
                    rr,
                ),
            out@.len() == i,
            forall|k: int| 0 <= k < i ==> mapper.predicts(palette@, pixels@[k]@, #[trigger] out@[k]@),
            t.current == old(t).current + (i - start),
            t.total == old(t).total,
            old(t).current + (end - start) <= old(t).total,
        decreases end - i,
    {
        let px = pixels[i];
        let r = mapper.predict(palette, &px);
        out.push(r);
        t.notify();
        i += 1;
    }
}

/// Map every chunk in order, concatenating the outputs; chunk order equals
/// original index order because the chunks are contiguous and cover the
/// buffer.
fn process_ranges<M: Mapper>(
    mapper: &mut M,
    palette: &[Rgbx],
    pixels: &Vec<[u8; 4]>,
    ranges: &Vec<(usize, usize)>,
    t: &mut Tracker,
) -> (out: Vec<[u8; 4]>)
    requires
        old(mapper).req(palette@),
        old(mapper).inv(palette@),
        ranges_ok(ranges@, pixels@.len() as int),
        old(t).current + pixels@.len() <= old(t).total,
    ensures
        final(mapper).req(palette@),
        final(mapper).inv(palette@),
        forall|px: Seq<u8>, rr: Seq<u8>|
            final(mapper).predicts(palette@, px, rr) == #[trigger] old(mapper).predicts(
                palette@,
                px,
                rr,
            ),
        out@.len() == pixels@.len(),
        forall|i: int|
            0 <= i < pixels@.len() ==> final(mapper).predicts(
                palette@,
                pixels@[i]@,
                #[trigger] out@[i]@,
            ),
        final(t).current == old(t).current + pixels@.len(),
        final(t).total == old(t).total,
{
    let mut out: Vec<[u8; 4]> = Vec::new();
    let n = ranges.len();
    let mut ci: usize = 0;
    while ci < n
        invariant
            ci <= n == ranges@.len(),
            ranges_ok(ranges@, pixels@.len() as int),
            mapper.req(palette@),
            mapper.inv(palette@),
            forall|px: Seq<u8>, rr: Seq<u8>|
                mapper.predicts(palette@, px, rr) == #[trigger] old(mapper).predicts(
                    palette@,
                    px,
                    rr,
                ),
            out@.len() == (if ci == 0 {
                0int
            } else {
                ranges@[ci - 1].1 as int
            }),
            out@.len() <= pixels@.len(),
            forall|i: int|
                0 <= i < out@.len() ==> mapper.predicts(
                    palette@,
                    pixels@[i]@,
                    #[trigger] out@[i]@,
                ),
            t.current == old(t).current + out@.len(),
            t.total == old(t).total,
            old(t).current + pixels@.len() <= old(t).total,
        decreases n - ci,
    {
        let (s, e) = ranges[ci];
        proof {
            if ci > 0 {
                assert(ranges@[ci - 1].1 == ranges@[ci as int].0);
            }
        }
        map_range(mapper, palette, pixels, s, e, &mut out, t);
        ci += 1;
    }
    proof {
        if n == 0 {
            assert(pixels@.len() == 0);
        } else {
            assert(out@.len() == ranges@[n - 1].1);
        }
    }
    out
}

/// Map every pixel under the chosen scheduling mode. Whatever the mode, the
/// output holds exactly one prediction per pixel, in input order. The
/// chunked modes process their chunks sequentially in chunk order; the
/// data-parallel mode hands the buffer to the work-stealing scheduler when
/// the strategy is shareable, and otherwise falls back to one sequential
/// pass.
fn map_pixels<M: Mapper>(
    mapper: &mut M,
    palette: &[Rgbx],
    pixels: &Vec<[u8; 4]>,
    threads: Threads,
    par: ThreadCount,
    t: &mut Tracker,
) -> (out: Vec<[u8; 4]>)
    requires
        old(mapper).req(palette@),
        old(mapper).inv(palette@),
        threads_wf(threads),
        par.0 >= 1,
        old(t).current + pixels@.len() <= old(t).total,
    ensures
        final(mapper).req(palette@),
        final(mapper).inv(palette@),
        forall|px: Seq<u8>, rr: Seq<u8>|
            final(mapper).predicts(palette@, px, rr) == #[trigger] old(mapper).predicts(
                palette@,
                px,
                rr,
            ),
        out@.len() == pixels@.len(),
        forall|i: int|
            0 <= i < pixels@.len() ==> final(mapper).predicts(
                palette@,
                pixels@[i]@,
                #[trigger] out@[i]@,
            ),
        final(t).current == old(t).current + pixels@.len(),
        final(t).total == old(t).total,
{
    match threads {
        Threads::Single => {
            let ranges = partition(pixels.len(), 1);
            process_ranges(mapper, palette, pixels, &ranges, t)
        },
        Threads::Auto => {
            let ranges = partition(pixels.len(), par.get());
            process_ranges(mapper, palette, pixels, &ranges, t)
        },
        Threads::Custom(tc) => {
            let ranges = partition(pixels.len(), tc.get());
            process_ranges(mapper, palette, pixels, &ranges, t)
        },
        Threads::Extreme => {
            let ranges = subdivide(pixels.len(), par.get() / 2);
            process_ranges(mapper, palette, pixels, &ranges, t)
        },
        Threads::Rayon => {
            if mapper.is_shareable() {
                let out = par_map(mapper, palette, pixels);
                t.record(pixels.len());
                out
            } else {
                // The strategy's cache demands exclusive access, which the
                // data-parallel scheduler cannot give: run sequentially.
                let ranges = partition(pixels.len(), 1);
                process_ranges(mapper, palette, pixels, &ranges, t)
            }
        },
    }
}

/// Flatten per-pixel RGBA quadruples into one raw byte buffer.
fn flatten_pixels(px: &Vec<[u8; 4]>) -> (raw: Vec<u8>)
    ensures
        raw@.len() == 4 * px@.len(),
        forall|i: int| 0 <= i < px@.len() ==> #[trigger] pixel_bytes(raw@, i) == px@[i]@,
{
    let mut raw: Vec<u8> = Vec::new();
    let n = px.len();
    let mut i: usize = 0;
    while i < n
        invariant
            i <= n == px@.len(),
            raw@.len() == 4 * i,
            forall|k: int| 0 <= k < i ==> #[trigger] pixel_bytes(raw@, k) == px@[k]@,
        decreases n - i,
    {
        let ghost pre = raw@;
        let p = px[i];
        raw.push(p[0]);
        raw.push(p[1]);
        raw.push(p[2]);
        raw.push(p[3]);
        proof {
            assert forall|k: int| 0 <= k < i + 1 implies #[trigger] pixel_bytes(raw@, k) == px@[k]@
            by {
                if k < i {
                    assert(pixel_bytes(pre, k) == px@[k]@);
                    assert(pixel_bytes(raw@, k) =~= pixel_bytes(pre, k));
                } else {
                    assert(pixel_bytes(raw@, k) =~= px@[k]@);
                }
            }
        }
        i += 1;
    }
    raw
}

/// The output of a completed run: a raw RGBA byte buffer with its
/// dimensions.
#[derive(Debug)]
pub struct ProcessedData {
    /// The raw bytes, four per pixel, in input pixel order.
    pub raw: Vec<u8>,
    /// The dimensions of the image the buffer encodes.
    pub dimen: (u32, u32),
}

impl ProcessedData {
    /// The raw bytes, four per pixel, in input pixel order.
    pub fn raw_buffer(&self) -> (r: &[u8])
        ensures
            r@ == self.raw@,
    {
        self.raw.as_slice()
    }

    /// How many bytes the buffer holds.
    pub fn buffer_len(&self) -> (n: usize)
        ensures
            n == self.raw@.len(),
    {
        self.raw.len()
    }

    /// The dimensions of the image the buffer encodes.
    pub fn dimensions(&self) -> (d: (u32, u32))
        ensures
            d == self.dimen,
    {
        self.dimen
    }
}

impl<M: Mapper> Processor<M> {
    /// Begin a configuration: the default options, ready for the builder
    /// methods.
    pub fn configure() -> (r: ProcOptions<crate::mappers::Nearest>)
        ensures
            r.mapper is Nearest,
            r.threads is Auto,
            r.palette@ == nord_seq(),
            r.parallelism.0 == 2,
    {
        ProcOptions::new(crate::mappers::Nearest)
    }

    /// A fresh tracker for one run over this processor's buffer.
    pub fn gen_tracker(&self) -> (t: Tracker)
        ensures
            t.current == 0,
            t.total == self.pixels@.len(),
    {
        Tracker { current: 0, total: self.pixels.len() }
    }

    /// Run the strategy over every pixel under the configured scheduling
    /// mode. The output buffer holds exactly one RGBA quadruple per input
    /// pixel, in input order, each a permitted prediction for its input
    /// pixel alone.
    pub fn process(&mut self) -> (out: ProcessedData)
        requires
            processor_wf(*old(self)),
        ensures
            processor_wf(*final(self)),
            final(self).pixels == old(self).pixels,
            final(self).width == old(self).width,
            final(self).height == old(self).height,
            final(self).conf.threads == old(self).conf.threads,
            final(self).conf.palette == old(self).conf.palette,
            final(self).conf.parallelism == old(self).conf.parallelism,
            processed_ok(*old(self), out),
    {
        let total = self.pixels.len();
        let mut t = Tracker { current: 0, total };
        self.process_core(&mut t)
    }

    /// Like `process`, but feeding a progress tracker generated for this
    /// run: after completion the tracker reports every pixel processed.
    pub fn process_tracked(&mut self, t: &mut Tracker) -> (out: ProcessedData)
        requires
            processor_wf(*old(self)),
            old(t).current == 0,
            old(t).total == old(self).pixels@.len(),
        ensures
            processor_wf(*final(self)),
            final(self).pixels == old(self).pixels,
            final(self).width == old(self).width,
            final(self).height == old(self).height,
            final(self).conf.threads == old(self).conf.threads,
            final(self).conf.palette == old(self).conf.palette,
            final(self).conf.parallelism == old(self).conf.parallelism,
            processed_ok(*old(self), out),
            final(t).current == final(t).total,
            final(t).total == old(t).total,
    {
        self.process_core(t)
    }

    /// The shared body of `process` and `process_tracked`.
    fn process_core(&mut self, t: &mut Tracker) -> (out: ProcessedData)
        requires
            processor_wf(*old(self)),
            old(t).current + old(self).pixels@.len() <= old(t).total,
        ensures
            processor_wf(*final(self)),
            final(self).pixels == old(self).pixels,
            final(self).width == old(self).width,
            final(self).height == old(self).height,
            final(self).conf.threads == old(self).conf.threads,
            final(self).conf.palette == old(self).conf.palette,
            final(self).conf.parallelism == old(self).conf.parallelism,
            processed_ok(*old(self), out),
            final(t).current == old(t).current + old(self).pixels@.len(),
            final(t).total == old(t).total,
    {
        let out_px = map_pixels(
            &mut self.conf.mapper,
            self.conf.palette.as_slice(),
            &self.pixels,
            self.conf.threads,
            self.conf.parallelism,
            t,
        );
        let raw = flatten_pixels(&out_px);
        ProcessedData { raw, dimen: (self.width, self.height) }
    }
}


/// Order preservation and mode equivalence, combined: any two completed
/// runs of one deterministic strategy over the same palette and pixel
/// buffer produce byte-identical outputs, whatever scheduling mode produced
/// each of them.
pub proof fn lemma_mode_equivalence<M: Mapper>(
    p: Processor<M>,
    out1: ProcessedData,
    out2: ProcessedData,
)
    requires
        deterministic_on(p.conf.mapper, p.conf.palette@),
        processed_ok(p, out1),
        processed_ok(p, out2),
    ensures
        out1.raw@ == out2.raw@,
        out1.dimen == out2.dimen,
{
    assert forall|b: int| 0 <= b < out1.raw@.len() implies out1.raw@[b] == out2.raw@[b] by {
        let i = b / 4;
        let j = b % 4;
        vstd::arithmetic::div_mod::lemma_fundamental_div_mod(b, 4);
        assert(0 <= i < p.pixels@.len()) by {
            vstd::arithmetic::div_mod::lemma_multiply_divide_lt(b, 4, p.pixels@.len() as int);
        }
        assert(p.conf.mapper.predicts(p.conf.palette@, p.pixels@[i]@, pixel_bytes(out1.raw@, i)));
        assert(p.conf.mapper.predicts(p.conf.palette@, p.pixels@[i]@, pixel_bytes(out2.raw@, i)));
        assert(pixel_bytes(out1.raw@, i) == pixel_bytes(out2.raw@, i));
        assert(out1.raw@[b] == pixel_bytes(out1.raw@, i)[j]);
        assert(out2.raw@[b] == pixel_bytes(out2.raw@, i)[j]);
    }
    assert(out1.raw@ =~= out2.raw@);
}

/// Memoization transparency: for a deterministic strategy, what the
/// memoized wrapper returns for a pixel is exactly what the unwrapped
/// strategy returns for it.
pub proof fn lemma_memoized_transparent<M: Mapper>(
    w: memo::Memoized<M>,
    palette: Seq<Rgbx>,
    px: Seq<u8>,
    wrapped_out: Seq<u8>,
    plain_out: Seq<u8>,
)
    requires
        deterministic_on(w.mapper, palette),
        w.predicts(palette, px, wrapped_out),
        w.mapper.predicts(palette, px, plain_out),
    ensures
        wrapped_out == plain_out,
{
}

} // verus!
