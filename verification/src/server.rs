use vstd::prelude::*;

use crate::config::ChunkCoords;
use crate::physics::DT_LIMIT;

verus! {

/// The fixed-interval clock of one world: the tick cadence in milliseconds
/// and the moment (a monotonic millisecond count) the world last ticked.
pub struct WorldTimer {
    pub interval_ms: u64,
    pub last_ms: u64,
}

impl WorldTimer {
    /// A timer that fires `interval_ms` after its start.
    pub fn new(interval_ms: u64, now_ms: u64) -> (r: WorldTimer)
        requires
            1 <= interval_ms <= 10_000,
        ensures
            r.interval_ms == interval_ms,
            r.last_ms == now_ms,
    {
        WorldTimer { interval_ms, last_ms: now_ms }
    }

    /// Whether a tick is due: at least one interval has passed. Time runs
    /// forward, so `now_ms` never lies before the last tick.
    pub fn due(&self, now_ms: u64) -> (r: bool)
        requires
            now_ms >= self.last_ms,
        ensures
            r == (now_ms - self.last_ms >= self.interval_ms),
    {
        now_ms - self.last_ms >= self.interval_ms
    }

    /// Record that the tick ran now. A late tick does not accumulate
    /// catch-up iterations: the next one is measured from this moment.
    pub fn advance(&mut self, now_ms: u64)
        ensures
            final(self).interval_ms == old(self).interval_ms,
            final(self).last_ms == now_ms,
    {
        self.last_ms = now_ms;
    }

    /// The simulated seconds one tick covers, in fixed-point: a millisecond
    /// count is exactly a fixed-point second count in thousandths.
    pub fn delta(&self) -> (r: i64)
        requires
            1 <= self.interval_ms <= 10_000,
        ensures
            r == self.interval_ms,
            0 < r <= DT_LIMIT,
    {
        self.interval_ms as i64
    }
}

/// The chunk coordinates to warm up around the origin before clients arrive:
/// every chunk within the given radius on both axes.
pub fn preload_coords(radius: u32) -> (r: Vec<ChunkCoords>)
    requires
        radius <= 1000,
    ensures
        forall|i: int|
            0 <= i < r@.len() ==> -(radius as int) <= #[trigger] r@[i].x <= radius as int && -(
            radius as int) <= r@[i].z <= radius as int,
        r@.len() == (2 * radius + 1) * (2 * radius + 1),
        forall|i: int, j: int| 0 <= i < j < r@.len() ==> #[trigger] r@[i] != #[trigger] r@[j],
{
    let rad: i64 = radius as i64;
    let mut out: Vec<ChunkCoords> = Vec::new();
    let mut cx: i64 = -rad;
    proof {
        assert((cx + rad) * (2 * rad + 1) == 0) by (nonlinear_arith)
            requires
                cx == -rad,
        ;
    }
    while cx <= rad
        invariant
            rad == radius,
            0 <= rad <= 1000,
            -rad <= cx <= rad + 1,
            forall|i: int|
                0 <= i < out@.len() ==> -rad <= #[trigger] out@[i].x <= rad && -rad <= out@[i].z
                    <= rad,
            forall|i: int| 0 <= i < out@.len() ==> (#[trigger] out@[i].x) < cx,
            forall|i: int, j: int|
                0 <= i < j < out@.len() ==> #[trigger] out@[i] != #[trigger] out@[j],
            out@.len() == (cx + rad) * (2 * rad + 1),
        decreases rad + 1 - cx,
    {
        let mut cz: i64 = -rad;
        while cz <= rad
            invariant
                rad == radius,
                0 <= rad <= 1000,
                -rad <= cx <= rad,
                -rad <= cz <= rad + 1,
                forall|i: int|
                    0 <= i < out@.len() ==> -rad <= #[trigger] out@[i].x <= rad && -rad <= out@[i].z
                        <= rad,
                forall|i: int|
                    0 <= i < out@.len() ==> (#[trigger] out@[i].x) < cx || (out@[i].x == cx
                        && out@[i].z < cz),
                forall|i: int, j: int|
                    0 <= i < j < out@.len() ==> #[trigger] out@[i] != #[trigger] out@[j],
                out@.len() == (cx + rad) * (2 * rad + 1) + (cz + rad),
            decreases rad + 1 - cz,
        {
            let ghost pre = out@;
            out.push(ChunkCoords { x: cx as i32, z: cz as i32 });
            proof {
                assert forall|i: int, j: int| 0 <= i < j < out@.len() implies #[trigger] out@[i]
                    != #[trigger] out@[j] by {
                    if j < out@.len() - 1 {
                        assert(out@[i] == pre[i] && out@[j] == pre[j]);
                    } else {
                        assert(out@[i] == pre[i]);
                        assert(pre[i].x < cx || (pre[i].x == cx && pre[i].z < cz));
                        assert(out@[j].x == cx as i32 && out@[j].z == cz as i32);
                    }
                }
            }
            cz = cz + 1;
        }
        proof {
            assert((cx + rad) * (2 * rad + 1) + (2 * rad + 1) == (cx + 1 + rad) * (2 * rad + 1))
                by (nonlinear_arith);
        }
        cx = cx + 1;
    }
    proof {
        assert((rad + 1 + rad) * (2 * rad + 1) == (2 * (radius as int) + 1) * (2 * (radius as int)
            + 1)) by (nonlinear_arith)
            requires
                rad == radius,
        ;
    }
    out
}

} // verus!
