//! Audio stream bookkeeping: which hardware streams are open.
//!
//! The engine owns at most one capture stream and one playback stream
//! per remote peer. The hardware itself (device discovery, callbacks)
//! lives with the host; this registry is the single source of truth
//! for the stream lifecycle, so a reset provably reaches zero streams
//! and no playback entry survives its peer.

use vstd::prelude::*;
use vstd::arithmetic::div_mod::lemma_fundamental_div_mod_converse;
use crate::resampler::{resampled, Resampler};
use crate::strutil::str_eq;

verus! {

/// Append every sample of `src` to `dst`.
fn extend_samples(dst: &mut Vec<i16>, src: &Vec<i16>)
    ensures
        final(dst)@ == old(dst)@ + src@,
{
    let n = src.len();
    let mut i: usize = 0;
    while i < n
        invariant
            n == src@.len(),
            i <= n,
            dst@ == old(dst)@ + src@.take(i as int),
        decreases n - i,
    {
        dst.push(src[i]);
        proof {
            assert(dst@ =~= old(dst)@ + src@.take(i + 1 as int));
        }
        i = i + 1;
    }
    proof {
        assert(dst@ =~= old(dst)@ + src@);
    }
}

/// Downmix an interleaved multi-channel buffer to mono by decimation:
/// the first sample of every frame of `channels` samples is kept.
pub fn downmix_mono(data: &Vec<i16>, channels: usize) -> (r: Vec<i16>)
    requires
        channels >= 1,
        data@.len() + channels <= usize::MAX,
    ensures
        forall|t: int| 0 <= t < r@.len() ==> r@[t] == data@[t * (channels as int)],
        data@.len() == 0 ==> r@.len() == 0,
        data@.len() > 0 ==> r@.len() == (data@.len() - 1) / (channels as int) + 1,
{
    let mut r: Vec<i16> = Vec::new();
    let len = data.len();
    let mut j: usize = 0;
    proof {
        assert(0int * (channels as int) == 0) by (nonlinear_arith);
    }
    while j < len
        invariant
            channels >= 1,
            len == data@.len(),
            len + channels <= usize::MAX,
            j as int == r@.len() * (channels as int),
            j < len + channels,
            forall|t: int| 0 <= t < r@.len() ==> r@[t] == data@[t * (channels as int)],
        decreases len + channels - j,
    {
        let ghost q = r@.len() as int;
        r.push(data[j]);
        proof {
            assert(r@[q] == data@[q * (channels as int)]);
            vstd::arithmetic::mul::lemma_mul_is_distributive_add_other_way(
                channels as int,
                q,
                1,
            );
            assert((q + 1) * (channels as int) == q * (channels as int) + channels);
        }
        j = j + channels;
    }
    proof {
        let ch = channels as int;
        if len > 0 {
            let q = r@.len() as int - 1;
            // q * ch <= len - 1 < (q + 1) * ch pins q == (len - 1) / ch
            assert(r@.len() >= 1) by {
                if r@.len() == 0 {
                    assert((0int) * ch == 0) by (nonlinear_arith);
                    assert(j == 0);
                }
            }
            assert((q + 1) * ch == j);
            assert(q * ch == j - ch) by {
                vstd::arithmetic::mul::lemma_mul_is_distributive_add_other_way(ch, q, 1);
            }
            lemma_fundamental_div_mod_converse(len - 1, ch, q, (len - 1) - q * ch);
        } else {
            if r@.len() > 0 {
                assert(r@.len() * ch >= 1 * ch) by {
                    vstd::arithmetic::mul::lemma_mul_inequality(1, r@.len() as int, ch);
                }
                assert(false);
            }
        }
    }
    r
}

/// The number of samples in one 20 ms frame at this rate.
pub fn frame_size(rate: u32) -> (r: usize)
    ensures
        r == (rate as int) * 20 / 1000,
{
    ((rate as u64) * 20 / 1000) as usize
}

/// The five sample rates the codec natively supports, best first.
pub open spec fn preferred_rates() -> Seq<u32> {
    seq![48000u32, 24000u32, 16000u32, 12000u32, 8000u32]
}

/// How far down the preference list a rate sits (past the end for a
/// rate that is not preferred).
pub open spec fn preference_of(rate: u32) -> int {
    if rate == 48000 {
        0
    } else if rate == 24000 {
        1
    } else if rate == 16000 {
        2
    } else if rate == 12000 {
        3
    } else if rate == 8000 {
        4
    } else {
        5
    }
}

/// Whether a device configuration, given as its supported
/// `(min_rate, max_rate)` range, can run at `rate`.
pub open spec fn supports(c: (u32, u32), rate: u32) -> bool {
    c.0 <= rate && rate <= c.1
}

/// Whether any configuration in the list supports `rate`.
pub open spec fn some_config_supports(cs: Seq<(u32, u32)>, rate: u32) -> bool {
    exists|i: int| 0 <= i < cs.len() && supports(cs[i], rate)
}

/// The first configuration that supports `rate`, if any.
fn find_config(configs: &Vec<(u32, u32)>, rate: u32) -> (r: Option<usize>)
    ensures
        (match r {
            Some(i) => 0 <= i < configs@.len() && supports(configs@[i as int], rate) && (
            forall|j: int| 0 <= j < i ==> !supports(configs@[j], rate)),
            None => !some_config_supports(configs@, rate),
        }),
{
    let n = configs.len();
    let mut i: usize = 0;
    while i < n
        invariant
            n == configs@.len(),
            i <= n,
            forall|j: int| 0 <= j < i ==> !supports(configs@[j], rate),
        decreases n - i,
    {
        let c = configs[i];
        if c.0 <= rate && rate <= c.1 {
            return Some(i);
        }
        i = i + 1;
    }
    None
}

/// Choose the device configuration for the best codec-native rate:
/// the rates are tried in preference order, and for the first rate any
/// configuration supports, the first supporting configuration is
/// returned with that rate. `None` means no configuration supports any
/// preferred rate (the caller falls back to the device default).
pub fn pick_preferred_rate(configs: &Vec<(u32, u32)>) -> (r: Option<(usize, u32)>)
    ensures
        (match r {
            Some(pair) => {
                &&& 0 <= pair.0 < configs@.len()
                &&& supports(configs@[pair.0 as int], pair.1)
                &&& (forall|j: int| 0 <= j < pair.0 ==> !supports(configs@[j], pair.1))
                &&& preference_of(pair.1) < 5
                &&& preferred_rates()[preference_of(pair.1)] == pair.1
                &&& (forall|k: int|
                    0 <= k < preference_of(pair.1) ==> !some_config_supports(
                        configs@,
                        preferred_rates()[k],
                    ))
            },
            None => forall|k: int|
                0 <= k < 5 ==> !some_config_supports(configs@, preferred_rates()[k]),
        }),
{
    if let Some(i) = find_config(configs, 48000) {
        return Some((i, 48000));
    }
    if let Some(i) = find_config(configs, 24000) {
        return Some((i, 24000));
    }
    if let Some(i) = find_config(configs, 16000) {
        return Some((i, 16000));
    }
    if let Some(i) = find_config(configs, 12000) {
        return Some((i, 12000));
    }
    if let Some(i) = find_config(configs, 8000) {
        return Some((i, 8000));
    }
    None
}

/// A bounded sample queue between a producer (the decode path) and the
/// hardware callback. Overflow drops the oldest samples, never the
/// newest; underrun is filled with silence; no operation blocks or
/// fails.
pub struct RingBuffer {
    data: Vec<i16>,
    cap: usize,
}

impl RingBuffer {
    /// The buffered samples, oldest first.
    pub closed spec fn contents(self) -> Seq<i16> {
        self.data@
    }

    pub closed spec fn capacity(self) -> usize {
        self.cap
    }

    pub open spec fn wf(self) -> bool {
        self.contents().len() <= self.capacity()
    }

    /// An empty buffer holding at most `cap` samples.
    pub fn new(cap: usize) -> (r: RingBuffer)
        ensures
            r.wf(),
            r.capacity() == cap,
            r.contents() == Seq::<i16>::empty(),
    {
        let r = RingBuffer { data: Vec::new(), cap };
        proof {
            assert(r.contents() =~= Seq::<i16>::empty());
        }
        r
    }

    /// Append samples; when the result would exceed the capacity, the
    /// oldest samples are dropped so that exactly the newest
    /// `capacity()` remain.
    pub fn push_samples(&mut self, s: &Vec<i16>)
        requires
            old(self).wf(),
            old(self).contents().len() + s@.len() <= usize::MAX,
        ensures
            final(self).wf(),
            final(self).capacity() == old(self).capacity(),
            final(self).contents() == (old(self).contents() + s@).skip(
                if old(self).contents().len() + s@.len() > old(self).capacity() {
                    old(self).contents().len() + s@.len() - old(self).capacity()
                } else {
                    0
                },
            ),
    {
        let ghost total = old(self).contents() + s@;
        extend_samples(&mut self.data, s);
        let len = self.data.len();
        if len > self.cap {
            let excess = len - self.cap;
            let mut kept: Vec<i16> = Vec::new();
            let mut i: usize = excess;
            while i < len
                invariant
                    len == self.data@.len(),
                    excess <= i <= len,
                    self.data@ == total,
                    kept@ == total.subrange(excess as int, i as int),
                decreases len - i,
            {
                kept.push(self.data[i]);
                proof {
                    assert(kept@ =~= total.subrange(excess as int, i + 1 as int));
                }
                i = i + 1;
            }
            self.data = kept;
            proof {
                assert(self.contents() =~= total.skip(excess as int));
            }
        } else {
            proof {
                assert(self.contents() =~= total.skip(0));
            }
        }
    }

    /// Remove and return exactly `n` samples: the oldest buffered
    /// samples first, the rest silence. Never blocks, never fails.
    pub fn pop_chunk(&mut self, n: usize) -> (r: Vec<i16>)
        requires
            old(self).wf(),
        ensures
            final(self).wf(),
            final(self).capacity() == old(self).capacity(),
            r@.len() == n,
            ({
                let m = if n <= old(self).contents().len() {
                    n as int
                } else {
                    old(self).contents().len() as int
                };
                &&& r@ == old(self).contents().take(m) + Seq::new((n - m) as nat, |t: int| 0i16)
                &&& final(self).contents() == old(self).contents().skip(m)
            }),
    {
        let ghost oldc = old(self).contents();
        let len = self.data.len();
        let m = if n <= len {
            n
        } else {
            len
        };
        let mut r: Vec<i16> = Vec::new();
        let mut i: usize = 0;
        while i < m
            invariant
                m <= len,
                len == self.data@.len(),
                self.data@ == oldc,
                i <= m,
                r@ == oldc.take(i as int),
            decreases m - i,
        {
            r.push(self.data[i]);
            proof {
                assert(r@ =~= oldc.take(i + 1 as int));
            }
            i = i + 1;
        }
        while i < n
            invariant
                m <= i <= n,
                m <= len,
                len == self.data@.len(),
                self.data@ == oldc,
                r@ == oldc.take(m as int) + Seq::new((i - m) as nat, |t: int| 0i16),
            decreases n - i,
        {
            r.push(0i16);
            proof {
                assert(r@ =~= oldc.take(m as int) + Seq::new(
                    (i + 1 - m) as nat,
                    |t: int| 0i16,
                ));
            }
            i = i + 1;
        }
        let mut kept: Vec<i16> = Vec::new();
        let mut k: usize = m;
        while k < len
            invariant
                m <= k <= len,
                len == self.data@.len(),
                self.data@ == oldc,
                kept@ == oldc.subrange(m as int, k as int),
            decreases len - k,
        {
            kept.push(self.data[k]);
            proof {
                assert(kept@ =~= oldc.subrange(m as int, k + 1 as int));
            }
            k = k + 1;
        }
        self.data = kept;
        proof {
            assert(self.contents() =~= oldc.skip(m as int));
        }
        r
    }
}

/// The capture-side compute pipeline: device-rate samples go through
/// the resampler, and the resampled stream is cut into codec frames of
/// a fixed length. Across calls the emitted frames are exactly the
/// consecutive blocks of the resampled stream: nothing is lost,
/// duplicated or reordered at chunk boundaries.
pub struct CapturePipeline {
    resampler: Resampler,
    buf: Vec<i16>,
    frame_len: usize,
    emitted: Ghost<Seq<i16>>,
}

impl CapturePipeline {
    /// Every device sample ever accepted, in order.
    pub closed spec fn history(self) -> Seq<i16> {
        self.resampler.history()
    }

    /// Every sample emitted in a frame so far, in order.
    pub closed spec fn emitted(self) -> Seq<i16> {
        self.emitted@
    }

    pub closed spec fn spec_from_rate(self) -> u32 {
        self.resampler.spec_from_rate()
    }

    pub closed spec fn spec_to_rate(self) -> u32 {
        self.resampler.spec_to_rate()
    }

    pub closed spec fn spec_frame_len(self) -> usize {
        self.frame_len
    }

    /// The emitted samples are a prefix of the resampled stream, cut
    /// at a frame boundary; what remains of the stream is shorter than
    /// one frame and still buffered.
    pub closed spec fn wf(self) -> bool {
        &&& self.resampler.wf()
        &&& self.frame_len >= 1
        &&& self.buf@.len() < self.frame_len
        &&& self.emitted@ + self.buf@ == resampled(
            self.spec_from_rate() as int,
            self.spec_to_rate() as int,
            self.history(),
        )
        &&& (self.emitted@.len() as int) % (self.frame_len as int) == 0
    }

    /// A fresh pipeline converting `from_rate` to `to_rate` and
    /// emitting frames of `frame_len` samples.
    pub fn new(from_rate: u32, to_rate: u32, frame_len: usize) -> (r: CapturePipeline)
        requires
            1 <= from_rate,
            1 <= to_rate,
            1 <= frame_len,
        ensures
            r.wf(),
            r.history() == Seq::<i16>::empty(),
            r.emitted() == Seq::<i16>::empty(),
            r.spec_from_rate() == from_rate,
            r.spec_to_rate() == to_rate,
            r.spec_frame_len() == frame_len,
    {
        let r = CapturePipeline {
            resampler: Resampler::new(from_rate, to_rate),
            buf: Vec::new(),
            frame_len,
            emitted: Ghost(Seq::empty()),
        };
        proof {
            assert(r.emitted@ + r.buf@ =~= resampled(
                from_rate as int,
                to_rate as int,
                Seq::<i16>::empty(),
            ));
            assert(Seq::<i16>::empty().len() as int % (frame_len as int) == 0);
        }
        r
    }

    /// Accept one chunk of device samples and return every codec frame
    /// that is now complete, in order. The concatenation of all frames
    /// ever returned extends exactly the resampled input history.
    pub fn accept_chunk(&mut self, samples: &Vec<i16>) -> (frames: Vec<Vec<i16>>)
        requires
            old(self).wf(),
            samples@.len() + old(self).spec_from_rate() + 1 <= usize::MAX,
        ensures
            final(self).wf(),
            final(self).spec_from_rate() == old(self).spec_from_rate(),
            final(self).spec_to_rate() == old(self).spec_to_rate(),
            final(self).spec_frame_len() == old(self).spec_frame_len(),
            final(self).history() == old(self).history() + samples@,
            forall|t: int|
                0 <= t < frames@.len() ==> (#[trigger] frames@[t])@.len() == old(
                    self,
                ).spec_frame_len(),
            final(self).emitted() == old(self).emitted() + frames.deep_view().flatten(),
            final(self).emitted().len() + final(self).buf_len() == resampled(
                old(self).spec_from_rate() as int,
                old(self).spec_to_rate() as int,
                final(self).history(),
            ).len(),
    {
        let out = self.resampler.process(samples);
        extend_samples(&mut self.buf, &out);
        let ghost target = resampled(
            self.resampler.spec_from_rate() as int,
            self.resampler.spec_to_rate() as int,
            self.resampler.history(),
        );
        proof {
            assert(self.emitted@ + self.buf@ =~= target);
        }
        let mut frames: Vec<Vec<i16>> = Vec::new();
        proof {
            assert(frames.deep_view() =~= Seq::<Seq<i16>>::empty());
            assert(frames.deep_view().flatten() =~= Seq::<i16>::empty());
            assert(self.emitted@ == old(self).emitted() + frames.deep_view().flatten());
        }
        let flen = self.frame_len;
        while self.buf.len() >= flen
            invariant
                flen == self.frame_len,
                flen >= 1,
                self.resampler.wf(),
                self.frame_len == old(self).spec_frame_len(),
                self.resampler.spec_from_rate() == old(self).spec_from_rate(),
                self.resampler.spec_to_rate() == old(self).spec_to_rate(),
                self.resampler.history() == old(self).history() + samples@,
                self.emitted@ + self.buf@ == target,
                (self.emitted@.len() as int) % (flen as int) == 0,
                self.emitted@ == old(self).emitted() + frames.deep_view().flatten(),
                forall|t: int|
                    0 <= t < frames@.len() ==> (#[trigger] frames@[t])@.len() == flen,
            decreases self.buf@.len(),
        {
            let mut frame: Vec<i16> = Vec::new();
            let mut i: usize = 0;
            while i < flen
                invariant
                    i <= flen,
                    flen <= self.buf@.len(),
                    frame@ == self.buf@.take(i as int),
                decreases flen - i,
            {
                frame.push(self.buf[i]);
                proof {
                    assert(frame@ =~= self.buf@.take(i + 1 as int));
                }
                i = i + 1;
            }
            let blen = self.buf.len();
            let mut rest: Vec<i16> = Vec::new();
            let mut k: usize = flen;
            while k < blen
                invariant
                    flen <= k <= blen,
                    blen == self.buf@.len(),
                    rest@ == self.buf@.subrange(flen as int, k as int),
                decreases blen - k,
            {
                rest.push(self.buf[k]);
                proof {
                    assert(rest@ =~= self.buf@.subrange(flen as int, k + 1 as int));
                }
                k = k + 1;
            }
            let ghost prebuf = self.buf@;
            let ghost pre_emitted = self.emitted@;
            let ghost pre_frames = frames.deep_view();
            self.buf = rest;
            proof {
                self.emitted@ = pre_emitted + prebuf.take(flen as int);
            }
            proof {
                assert(frame.deep_view() =~= prebuf.take(flen as int));
            }
            frames.push(frame);
            proof {
                assert(frames.deep_view() =~= pre_frames.push(prebuf.take(flen as int)));
                pre_frames.lemma_flatten_push(prebuf.take(flen as int));
                assert(frames.deep_view().flatten() =~= pre_frames.flatten() + prebuf.take(
                    flen as int,
                ));
                assert(self.emitted@ + self.buf@ =~= target);
                assert(self.emitted@ =~= old(self).emitted() + frames.deep_view().flatten());
                assert((self.emitted@.len() as int) % (flen as int) == 0) by {
                    assert(self.emitted@.len() == pre_emitted.len() + flen);
                    vstd::arithmetic::div_mod::lemma_mod_add_multiples_vanish(
                        pre_emitted.len() as int,
                        flen as int,
                    );
                }
            }
        }
        frames
    }

    /// How many resampled samples wait for the next frame boundary.
    pub closed spec fn buf_len(self) -> int {
        self.buf@.len() as int
    }
}

/// Why a device could not be opened. The payload is the device
/// library's message.
#[derive(Debug, Clone, PartialEq)]
pub enum AudioDeviceError {
    InputDeviceError(String),
    OutputDeviceError(String),
}

/// The abstract state of the engine: whether capture is running, and
/// the peers that currently own a playback stream, in creation order.
pub struct AudioSpec {
    pub capture: bool,
    pub playback: Seq<Seq<char>>,
}

pub struct AudioEngine {
    capture_running: bool,
    playback_peers: Vec<String>,
}

/// True when `id` is one of the playback owners.
pub open spec fn has_id(ids: Seq<Seq<char>>, id: Seq<char>) -> bool {
    exists|i: int| 0 <= i < ids.len() && ids[i] == id
}

/// The position of `id` among the playback owners (unique when the
/// owners are distinct).
pub open spec fn id_index(ids: Seq<Seq<char>>, id: Seq<char>) -> int {
    choose|i: int| 0 <= i < ids.len() && ids[i] == id
}

/// `ids` without `id`: unchanged when absent, else with the one
/// occurrence removed.
pub open spec fn ids_without(ids: Seq<Seq<char>>, id: Seq<char>) -> Seq<Seq<char>> {
    if has_id(ids, id) {
        ids.remove(id_index(ids, id))
    } else {
        ids
    }
}

/// All ids distinct.
pub open spec fn ids_unique(ids: Seq<Seq<char>>) -> bool {
    forall|i: int, j: int| 0 <= i < j < ids.len() ==> ids[i] != ids[j]
}

impl AudioEngine {
    pub closed spec fn view(self) -> AudioSpec {
        AudioSpec { capture: self.capture_running, playback: self.playback_peers.deep_view() }
    }

    /// At most one playback stream per peer.
    pub open spec fn wf(self) -> bool {
        ids_unique(self.view().playback)
    }

    /// A fresh engine with no streams.
    pub fn new() -> (r: AudioEngine)
        ensures
            r.wf(),
            !r.view().capture,
            r.view().playback == Seq::<Seq<char>>::empty(),
    {
        let r = AudioEngine { capture_running: false, playback_peers: Vec::new() };
        proof {
            assert(r.view().playback =~= Seq::<Seq<char>>::empty());
        }
        r
    }

    /// Stop every stream unconditionally. Safe to call when nothing is
    /// running; afterwards zero streams are open.
    pub fn reset(&mut self)
        ensures
            final(self).wf(),
            !final(self).view().capture,
            final(self).view().playback == Seq::<Seq<char>>::empty(),
    {
        self.capture_running = false;
        self.playback_peers.clear();
        proof {
            assert(self.view().playback =~= Seq::<Seq<char>>::empty());
        }
    }

    /// Record the outcome of opening the capture stream: running
    /// exactly when the device opened. Playback streams are untouched.
    pub fn start_capture(&mut self, device_ok: bool) -> (r: bool)
        requires
            old(self).wf(),
        ensures
            final(self).wf(),
            r == device_ok,
            final(self).view().capture == device_ok,
            final(self).view().playback == old(self).view().playback,
    {
        self.capture_running = device_ok;
        device_ok
    }

    /// True while the capture stream is running.
    pub fn capture_running(&self) -> (r: bool)
        ensures
            r == self.view().capture,
    {
        self.capture_running
    }

    /// Record the outcome of opening (or reusing) the playback stream
    /// for one peer: on success the peer owns a stream afterwards (a
    /// peer that already had one keeps it); on failure nothing
    /// changes. Capture is untouched.
    pub fn start_playback_for_peer(&mut self, peer_id: &str, device_ok: bool) -> (r: bool)
        requires
            old(self).wf(),
        ensures
            final(self).wf(),
            r == device_ok,
            final(self).view().capture == old(self).view().capture,
            !device_ok ==> final(self).view().playback == old(self).view().playback,
            device_ok ==> final(self).view().playback == (if has_id(
                old(self).view().playback,
                peer_id@,
            ) {
                old(self).view().playback
            } else {
                old(self).view().playback.push(peer_id@)
            }),
    {
        if !device_ok {
            return false;
        }
        if self.find_stream(peer_id).is_some() {
            return true;
        }
        self.playback_peers.push(peer_id.to_owned());
        proof {
            assert(self.view().playback =~= old(self).view().playback.push(peer_id@));
        }
        true
    }

    /// The position of this peer's playback stream, if it has one.
    fn find_stream(&self, peer_id: &str) -> (r: Option<usize>)
        requires
            self.wf(),
        ensures
            (match r {
                Some(i) => has_id(self.view().playback, peer_id@) && i
                    == id_index(self.view().playback, peer_id@),
                None => !has_id(self.view().playback, peer_id@),
            }),
    {
        let n = self.playback_peers.len();
        let mut i: usize = 0;
        while i < n
            invariant
                self.wf(),
                n == self.playback_peers@.len(),
                i <= n,
                forall|t: int| 0 <= t < i ==> self.view().playback[t] != peer_id@,
            decreases n - i,
        {
            if str_eq(self.playback_peers[i].as_str(), peer_id) {
                proof {
                    let ids = self.view().playback;
                    assert(ids[i as int] == peer_id@);
                    let w = id_index(ids, peer_id@);
                    assert(ids[w] == peer_id@);
                    assert(w == i as int);
                }
                return Some(i);
            }
            i = i + 1;
        }
        None
    }

    /// True when this peer currently owns a playback stream.
    pub fn has_peer_stream(&self, peer_id: &str) -> (r: bool)
        requires
            self.wf(),
        ensures
            r == has_id(self.view().playback, peer_id@),
    {
        self.find_stream(peer_id).is_some()
    }

    /// How many playback streams are open.
    pub fn playback_count(&self) -> (r: usize)
        ensures
            r == self.view().playback.len(),
    {
        self.playback_peers.len()
    }

    /// Tear down this peer's playback stream; a no-op when the peer
    /// has none. Capture and other peers' streams are untouched.
    pub fn remove_peer_stream(&mut self, peer_id: &str)
        requires
            old(self).wf(),
        ensures
            final(self).wf(),
            final(self).view().capture == old(self).view().capture,
            final(self).view().playback == ids_without(old(self).view().playback, peer_id@),
            !has_id(final(self).view().playback, peer_id@),
    {
        let found = self.find_stream(peer_id);
        match found {
            Some(i) => {
                self.playback_peers.remove(i);
                proof {
                    let oldids = old(self).view().playback;
                    let w = id_index(oldids, peer_id@);
                    assert(self.view().playback =~= oldids.remove(w));
                    assert forall|a: int, b: int|
                        0 <= a < b < self.view().playback.len() implies self.view().playback[a]
                        != self.view().playback[b] by {
                        let ids = self.view().playback;
                        let x = if a < w {
                            a
                        } else {
                            a + 1
                        };
                        let y = if b < w {
                            b
                        } else {
                            b + 1
                        };
                        assert(ids[a] == oldids[x]);
                        assert(ids[b] == oldids[y]);
                    }
                    assert forall|a: int|
                        0 <= a < self.view().playback.len() implies self.view().playback[a]
                        != peer_id@ by {
                        let ids = self.view().playback;
                        let x = if a < w {
                            a
                        } else {
                            a + 1
                        };
                        assert(ids[a] == oldids[x]);
                    }
                }
            },
            None => {
                proof {
                    assert(self.view().playback =~= ids_without(
                        old(self).view().playback,
                        peer_id@,
                    ));
                }
            },
        }
    }
}

} // verus!
