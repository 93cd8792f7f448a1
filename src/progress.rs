use crate::context::Progress;
use vstd::prelude::*;

verus! {

/// How much of a pass over `size` bytes is done at `offset`, in percent;
/// a pass over no bytes is complete.
pub open spec fn pass_percent_spec(offset: nat, size: nat) -> nat {
    if size == 0 {
        100
    } else {
        offset * 100 / size
    }
}

/// How much of a round of `count` passes is done when `done` passes are
/// complete and the current one is `pass_pct` percent done.
pub open spec fn round_percent_spec(done: nat, count: nat, pass_pct: nat) -> nat {
    (done * 100 + pass_pct) / count
}

/// How much of a pass over `size` bytes is done at `offset`, in percent.
pub fn pass_percent(offset: u64, size: u64) -> (r: u64)
    requires
        offset <= size,
    ensures
        r == pass_percent_spec(offset as nat, size as nat),
        r <= 100,
{
    if size == 0 {
        100
    } else {
        let p = (offset as u128) * 100 / (size as u128);
        assert(p <= 100) by (nonlinear_arith)
            requires
                p == (offset as int) * 100 / (size as int),
                offset <= size,
                size > 0,
        {
            assert((offset as int) * 100 <= (size as int) * 100);
            assert((offset as int) * 100 / (size as int) <= (size as int) * 100 / (size as int));
        }
        p as u64
    }
}

/// How much of a round of `count` passes is done, in percent, when `done`
/// passes are complete and the current one is `pass_pct` percent done.
pub fn round_percent(done: u64, count: u64, pass_pct: u64) -> (r: u64)
    requires
        done < count,
        pass_pct <= 100,
    ensures
        r == round_percent_spec(done as nat, count as nat, pass_pct as nat),
        r <= 100,
        done + 1 == count && pass_pct == 100 ==> r == 100,
        r == 100 ==> done + 1 == count && pass_pct == 100,
{
    let p = ((done as u128) * 100 + pass_pct as u128) / (count as u128);
    assert(p <= 100) by (nonlinear_arith)
        requires
            p == ((done as int) * 100 + pass_pct) / (count as int),
            done < count,
            pass_pct <= 100,
    {
        assert((done as int) * 100 + pass_pct <= (count as int) * 100);
        assert(((done as int) * 100 + pass_pct) / (count as int) <= (count as int) * 100 / (count as int));
    }
    if p == 100 {
        assert(done + 1 == count && pass_pct == 100) by (nonlinear_arith)
            requires
                p == ((done as int) * 100 + pass_pct) / (count as int),
                p == 100,
                done < count,
                pass_pct <= 100,
        {
            assert((done as int) * 100 + pass_pct >= (count as int) * 100);
        }
    }
    if done + 1 == count && pass_pct == 100 {
        assert(p == 100) by (nonlinear_arith)
            requires
                p == ((done as int) * 100 + pass_pct) / (count as int),
                done + 1 == count,
                pass_pct == 100,
        {
            assert((done as int) * 100 + pass_pct == (count as int) * 100);
        }
    }
    p as u64
}

/// Bytes per second after `bytes` bytes in `elapsed` seconds, counting at
/// least one second.
pub open spec fn throughput_spec(bytes: nat, elapsed: nat) -> nat {
    if elapsed == 0 {
        bytes
    } else {
        bytes / elapsed
    }
}

/// Seconds left when `done` of `expected` bytes are through at `rate` bytes
/// per second, counting a rate of at least one: `(expected - done) / rate`,
/// rounded toward zero; negative once more than `expected` bytes are through;
/// held within `±i64::MAX`.
pub open spec fn eta_spec(expected: nat, done: nat, rate: nat) -> int {
    let r: nat = if rate == 0 {
        1
    } else {
        rate
    };
    let q: int = if done <= expected {
        ((expected - done) as nat / r) as int
    } else {
        -(((done - expected) as nat / r) as int)
    };
    if q > i64::MAX {
        i64::MAX as int
    } else if q < -(i64::MAX as int) {
        -(i64::MAX as int)
    } else {
        q
    }
}

/// Sets the throughput and the estimated time left from the bytes done so
/// far, `elapsed` seconds after the start, when `expected` bytes are due in all.
pub fn update_eta_throughput(p: &mut Progress, expected: u64, elapsed: u64)
    ensures
        final(p).throughput == throughput_spec(old(p).bytes_total as nat, elapsed as nat),
        final(p).eta == eta_spec(expected as nat, old(p).bytes_total as nat, final(p).throughput as nat),
        *final(p) == (Progress { throughput: final(p).throughput, eta: final(p).eta, ..*old(p) }),
{
    let rate = if elapsed == 0 {
        p.bytes_total
    } else {
        p.bytes_total / elapsed
    };
    let r = if rate == 0 {
        1
    } else {
        rate
    };
    let (behind, left) = if p.bytes_total <= expected {
        (false, expected - p.bytes_total)
    } else {
        (true, p.bytes_total - expected)
    };
    let q = left / r;
    let m = if q > i64::MAX as u64 {
        i64::MAX
    } else {
        q as i64
    };
    p.throughput = rate;
    p.eta = if behind {
        -m
    } else {
        m
    };
}

/// The progress `p` after a step, at `offset` of a pass over `size` bytes
/// when `done` of the round's `count` passes are complete, `elapsed` seconds
/// after the start, with `expected` bytes due in all. The byte counters stay.
pub fn advance_progress(p: Progress, offset: u64, size: u64, done: u64, count: u64, expected: u64, elapsed: u64) -> (r: Progress)
    requires
        offset <= size,
        done < count,
    ensures
        r.pass_percent == pass_percent_spec(offset as nat, size as nat),
        r.round_percent == round_percent_spec(done as nat, count as nat, r.pass_percent as nat),
        r.pass_percent <= 100,
        r.round_percent <= 100,
        r.spinner_idx == if p.spinner_idx < u64::MAX {
            p.spinner_idx + 1
        } else {
            p.spinner_idx as int
        },
        r.throughput == throughput_spec(p.bytes_total as nat, elapsed as nat),
        r.eta == eta_spec(expected as nat, p.bytes_total as nat, r.throughput as nat),
        r == (Progress {
            pass_percent: r.pass_percent,
            round_percent: r.round_percent,
            spinner_idx: r.spinner_idx,
            throughput: r.throughput,
            eta: r.eta,
            ..p
        }),
{
    let mut r = p;
    r.pass_percent = pass_percent(offset, size);
    r.round_percent = round_percent(done, count, r.pass_percent);
    if r.spinner_idx < u64::MAX {
        r.spinner_idx = r.spinner_idx + 1;
    }
    update_eta_throughput(&mut r, expected, elapsed);
    r
}

} // verus!
