use vstd::prelude::*;

use crate::attack_machine::{
    pre_calculate_spec, sample_spec, MachineView, Phase, MAX_ATTACK_SIZE,
};
use crate::commands::{bits_value, lemma_accumulator_from_zero, pushes, CmdView};

verus! {

/// The bounds that every state of a running attack keeps.
pub open spec fn running(m: MachineView) -> bool {
    &&& m.program.len() == MAX_ATTACK_SIZE
    &&& 0 <= m.index <= MAX_ATTACK_SIZE
    &&& 0 <= m.run <= 4
}

/// Preparing a bit leaves the phase and the run alone, never fills the
/// accumulator, and only moves the instruction pointer forward, over skipped
/// `WaitBuffered` instructions.
pub proof fn lemma_pre_calculate_keeps(m: MachineView)
    requires
        0 <= m.index,
    ensures
        pre_calculate_spec(m).phase == m.phase,
        pre_calculate_spec(m).run == m.run,
        pre_calculate_spec(m).polarity == m.polarity,
        pre_calculate_spec(m).program.len() == m.program.len(),
        m.buffer == 0 ==> pre_calculate_spec(m).buffer == 0,
        pre_calculate_spec(m).index >= m.index,
        m.index <= m.program.len() ==> pre_calculate_spec(m).index <= m.program.len(),
        m.index < m.program.len() && pre_calculate_spec(m).index == m.index ==> !(m.program[m.index] is WaitBuffered)
            || m.buffer != 0,
    decreases m.program.len() - m.index,
{
    if 0 <= m.index < m.program.len() {
        if let CmdView::WaitBuffered = m.program[m.index] {
            if m.buffer == 0 {
                lemma_pre_calculate_keeps(MachineView { index: m.index + 1, ..m });
            }
        }
    }
}

/// Bit stuffing. When a sample is the fifth equal level in a row, the step
/// waits 8 quanta instead of 7, to the sampling point of the bit that the bus
/// inserts. That bit only restarts the run at its own level: whatever level it
/// shows, the machine ends up in the same state but for the run's level, and
/// no instruction sees it; then the usual 7 quanta follow. Any other sample
/// that keeps the attack going waits 7 quanta and moves on to the start of the
/// next bit, a differing level starting a run of 1.
pub proof fn lemma_stuffing(m: MachineView, rx: bool, rx_next: bool)
    requires
        running(m),
        m.phase == Phase::Evaluate,
        sample_spec(m, rx).1 is Some,
    ensures
        ({
            let after = sample_spec(m, rx).0;
            let r = sample_spec(m, rx).1;
            &&& (rx == m.polarity && m.run == 4) ==> {
                &&& r == Some(8u32)
                &&& after.phase == Phase::Stuffed
                &&& sample_spec(after, rx_next).1 == Some(7u32)
                &&& sample_spec(after, rx_next).0 == pre_calculate_spec(
                    MachineView { phase: Phase::OnStart, run: 1, polarity: rx_next, ..after },
                )
                &&& sample_spec(after, rx_next).0 == (MachineView {
                    polarity: rx_next,
                    ..sample_spec(after, !rx_next).0
                })
            }
            &&& !(rx == m.polarity && m.run == 4) ==> {
                &&& r == Some(7u32)
                &&& after.phase == Phase::OnStart
                &&& after.run == (if rx == m.polarity { m.run + 1 } else { 1 })
                &&& after.polarity == rx
            }
        }),
{
    let t = if rx == m.polarity {
        MachineView { run: m.run + 1, ..m }
    } else {
        MachineView { run: 1, polarity: rx, ..m }
    };
    lemma_middle_keeps(t, rx);
    let j = crate::attack_machine::middle_spec(t, rx);
    let m3 = if j.1 == Ok::<bool, ()>(true) { MachineView { index: j.0.index + 1, ..j.0 } } else { j.0 };
    if !(rx == m.polarity && m.run == 4) {
        lemma_pre_calculate_keeps(MachineView { phase: Phase::OnStart, ..m3 });
    } else {
        let after = sample_spec(m, rx).0;
        let x = MachineView { phase: Phase::OnStart, run: 1, polarity: !rx_next, ..after };
        lemma_pre_calculate_polarity(x, rx_next);
        assert(MachineView { polarity: rx_next, ..x } == (MachineView {
            phase: Phase::OnStart,
            run: 1,
            polarity: rx_next,
            ..after
        }));
    }
}

/// Preparing a bit does not look at the run's level.
proof fn lemma_pre_calculate_polarity(m: MachineView, p: bool)
    ensures
        pre_calculate_spec(MachineView { polarity: p, ..m }) == (MachineView {
            polarity: p,
            ..pre_calculate_spec(m)
        }),
    decreases m.program.len() - m.index,
{
    if 0 <= m.index < m.program.len() {
        if let CmdView::WaitBuffered = m.program[m.index] {
            if m.buffer == 0 {
                lemma_pre_calculate_polarity(MachineView { index: m.index + 1, ..m }, p);
                assert(MachineView { index: m.index + 1, ..MachineView { polarity: p, ..m } } == (
                MachineView { polarity: p, ..MachineView { index: m.index + 1, ..m } }));
            }
        }
    }
}

/// Judging an instruction leaves the phase, the run and the program's length alone.
proof fn lemma_middle_keeps(m: MachineView, rx: bool)
    ensures
        crate::attack_machine::middle_spec(m, rx).0.phase == m.phase,
        crate::attack_machine::middle_spec(m, rx).0.run == m.run,
        crate::attack_machine::middle_spec(m, rx).0.polarity == m.polarity,
        crate::attack_machine::middle_spec(m, rx).0.index == m.index,
        crate::attack_machine::middle_spec(m, rx).0.program.len() == m.program.len(),
        crate::attack_machine::middle_spec(m, rx).1 is Ok ==> 0 <= m.index < m.program.len(),
{
}

/// A `WaitBuffered` reached with `v > 0` in the accumulator turns into a wait
/// of `8 * v - 1` bits (the preparation itself standing for the last), and the
/// accumulator is cleared; with an empty accumulator it is skipped.
pub proof fn lemma_wait_buffered(m: MachineView)
    requires
        0 <= m.index < m.program.len(),
        m.program[m.index] is WaitBuffered,
    ensures
        m.buffer > 0 ==> pre_calculate_spec(m) == (MachineView {
            buffer: 0,
            program: m.program.update(m.index, CmdView::Wait { bits: (8 * m.buffer - 1) as nat }),
            ..m
        }),
        m.buffer == 0 ==> pre_calculate_spec(m) == pre_calculate_spec(
            MachineView { index: m.index + 1, ..m },
        ),
{
}

/// A `Match` judged on a sample: the expected bit lets the attack go on, the
/// bit being consumed and the instruction completing with its last bit; a
/// differing bit ends the attack at once, with the program, the pointer and
/// the prepared line levels untouched, so that nothing after the `Match` runs.
pub proof fn lemma_match_step(m: MachineView, rx: bool)
    requires
        running(m),
        m.phase == Phase::Evaluate,
        m.index < MAX_ATTACK_SIZE,
        m.program[m.index] is Match,
        m.program[m.index]->Match_stream.len() > 0,
    ensures
        ({
            let s = m.program[m.index]->Match_stream;
            let after = sample_spec(m, rx).0;
            let r = sample_spec(m, rx).1;
            &&& rx != s[0] ==> {
                &&& r is None
                &&& after.phase == Phase::Terminated
                &&& after.program == m.program
                &&& after.index == m.index
                &&& after.next == m.next
            }
            &&& (rx == s[0] && s.len() > 1) ==> {
                &&& r is Some
                &&& after.index == m.index
                &&& after.program[m.index] == CmdView::Match { stream: s.drop_first() }
            }
            &&& (rx == s[0] && s.len() == 1 && m.index + 1 < MAX_ATTACK_SIZE) ==> {
                &&& r is Some
                &&& after.index > m.index
            }
        }),
{
    let t = if rx == m.polarity {
        MachineView { run: m.run + 1, ..m }
    } else {
        MachineView { run: 1, polarity: rx, ..m }
    };
    lemma_middle_keeps(t, rx);
    let j = crate::attack_machine::middle_spec(t, rx);
    let m3 = if j.1 == Ok::<bool, ()>(true) { MachineView { index: j.0.index + 1, ..j.0 } } else { j.0 };
    lemma_pre_calculate_keeps(MachineView { phase: Phase::OnStart, ..m3 });
}

/// One sampling point of the bus with the receive line at `rx`: from the
/// start of a bit the machine drives its lines and then samples; from a
/// sampling point it samples at once. An ended attack stays as it is.
pub open spec fn bit_step(m: MachineView, rx: bool) -> MachineView {
    match m.phase {
        Phase::OnStart => sample_spec(MachineView { phase: Phase::Evaluate, ..m }, rx).0,
        Phase::Evaluate => sample_spec(m, rx).0,
        Phase::Stuffed => sample_spec(m, rx).0,
        _ => m,
    }
}

/// One frame bit `rx` on a bus that follows the stuffing rule: when the
/// machine expects an inserted bit, the bus shows it, at the opposite level.
pub open spec fn frame_step(m: MachineView, rx: bool) -> MachineView {
    let a = bit_step(m, rx);
    if a.phase == Phase::Stuffed {
        bit_step(a, !rx)
    } else {
        a
    }
}

/// The state after the bus has carried the frame bits `bits`, with the bits it
/// inserts after each run of five.
pub open spec fn run_frame(m: MachineView, bits: Seq<bool>) -> MachineView
    decreases bits.len(),
{
    if bits.len() == 0 {
        m
    } else {
        frame_step(run_frame(m, bits.drop_last()), bits.last())
    }
}

/// The run count and level after the frame bits `bits`, from a run of `run`
/// at `polarity`; an inserted bit restarts the run at its level.
pub open spec fn run_after(run: int, polarity: bool, bits: Seq<bool>) -> (int, bool)
    decreases bits.len(),
{
    if bits.len() == 0 {
        (run, polarity)
    } else {
        let before = run_after(run, polarity, bits.drop_last());
        if bits.last() == before.1 {
            if before.0 + 1 >= 5 {
                (1, !bits.last())
            } else {
                (before.0 + 1, before.1)
            }
        } else {
            (1, bits.last())
        }
    }
}

proof fn lemma_run_after_bounds(run: int, polarity: bool, bits: Seq<bool>)
    requires
        0 <= run <= 4,
    ensures
        0 <= run_after(run, polarity, bits).0 <= 4,
    decreases bits.len(),
{
    if bits.len() > 0 {
        lemma_run_after_bounds(run, polarity, bits.drop_last());
    }
}

/// The state after the first `j` bits of a `Match` on `s` were seen as expected.
spec fn matched_state(m: MachineView, s: Seq<bool>, j: nat) -> MachineView {
    MachineView {
        phase: Phase::OnStart,
        program: m.program.update(m.index, CmdView::Match { stream: s.skip(j as int) }),
        run: run_after(m.run, m.polarity, s.take(j as int)).0,
        polarity: run_after(m.run, m.polarity, s.take(j as int)).1,
        ..m
    }
}

/// Once ended, an attack ignores the bus.
pub proof fn lemma_terminated_stays(m: MachineView, bits: Seq<bool>)
    requires
        m.phase == Phase::Terminated,
    ensures
        run_frame(m, bits) == m,
    decreases bits.len(),
{
    if bits.len() > 0 {
        lemma_terminated_stays(m, bits.drop_last());
    }
}

proof fn lemma_match_prefix(m: MachineView, s: Seq<bool>, j: nat)
    requires
        running(m),
        m.phase == Phase::OnStart,
        m.index < MAX_ATTACK_SIZE,
        m.program[m.index] == (CmdView::Match { stream: s }),
        j < s.len(),
    ensures
        run_frame(m, s.take(j as int)) == matched_state(m, s, j),
        0 <= run_after(m.run, m.polarity, s.take(j as int)).0 <= 4,
    decreases j,
{
    lemma_run_after_bounds(m.run, m.polarity, s.take(j as int));
    if j == 0 {
        assert(s.take(0) =~= Seq::<bool>::empty());
        assert(s.skip(0) =~= s);
        assert(m.program.update(m.index, CmdView::Match { stream: s }) =~= m.program);
    } else {
        let k = (j - 1) as nat;
        assert(s.take(j as int).drop_last() =~= s.take(k as int));
        assert(s.take(j as int).last() == s[k as int]);
        lemma_match_prefix(m, s, k);
        let prev = matched_state(m, s, k);
        let e = MachineView { phase: Phase::Evaluate, ..prev };
        let rest = s.skip(k as int);
        assert(rest[0] == s[k as int]);
        assert(rest.drop_first() =~= s.skip(j as int));
        let t = crate::attack_machine::track_stuffing(e, s[k as int]);
        let judged = crate::attack_machine::middle_spec(t, s[k as int]);
        assert(judged.1 == Ok::<bool, ()>(false));
        assert(judged.0.program =~= m.program.update(m.index, CmdView::Match { stream: s.skip(j as int) }));
    }
}

/// A `Match` on `s` reached at the start of a bit, on a bus that follows the
/// stuffing rule (bits it inserts are skipped, not compared). If the frame
/// bits are exactly `s`, the attack goes on to the next instruction. If they
/// are the first `k` bits of `s` and then a different bit, the attack ends on
/// that bit, still at the `Match`, with the line levels it had, and whatever
/// the bus carries after that changes nothing.
pub proof fn lemma_match_run(m: MachineView, s: Seq<bool>, rxs: Seq<bool>, k: nat, rest: Seq<bool>)
    requires
        running(m),
        m.phase == Phase::OnStart,
        m.index + 1 < MAX_ATTACK_SIZE,
        m.program[m.index] == (CmdView::Match { stream: s }),
        s.len() > 0,
    ensures
        run_frame(m, s).phase == Phase::OnStart,
        run_frame(m, s).index > m.index,
        (k < s.len() && rxs.len() == k + 1 && rxs.take(k as int) == s.take(k as int) && rxs[k as int]
            != s[k as int]) ==> {
            &&& run_frame(m, rxs).phase == Phase::Terminated
            &&& run_frame(m, rxs).index == m.index
            &&& run_frame(m, rxs).next == m.next
            &&& run_frame(m, rxs + rest) == run_frame(m, rxs)
        },
{
    let n = (s.len() - 1) as nat;
    assert(s.take(s.len() as int) =~= s);
    assert(s.take(s.len() as int).drop_last() =~= s.take(n as int));
    lemma_match_prefix(m, s, n);
    let prev = matched_state(m, s, n);
    let e = MachineView { phase: Phase::Evaluate, ..prev };
    let last = s.skip(n as int);
    assert(last.len() == 1 && last[0] == s[n as int]);
    let t = crate::attack_machine::track_stuffing(e, s[n as int]);
    let judged = crate::attack_machine::middle_spec(t, s[n as int]);
    assert(judged.1 == Ok::<bool, ()>(true));
    let m3 = MachineView { index: judged.0.index + 1, ..judged.0 };
    lemma_pre_calculate_keeps(MachineView { phase: Phase::OnStart, ..m3 });
    lemma_pre_calculate_keeps(
        MachineView { phase: Phase::OnStart, run: 1, polarity: !s[n as int], ..m3 },
    );

    if k < s.len() && rxs.len() == k + 1 && rxs.take(k as int) == s.take(k as int) && rxs[k as int]
        != s[k as int] {
        lemma_match_prefix(m, s, k);
        assert(rxs.drop_last() =~= s.take(k as int));
        let p = matched_state(m, s, k);
        let pe = MachineView { phase: Phase::Evaluate, ..p };
        assert(s.skip(k as int)[0] == s[k as int]);
        let pt = crate::attack_machine::track_stuffing(pe, rxs[k as int]);
        assert(crate::attack_machine::middle_spec(pt, rxs[k as int]).1 is Err);
        let done = run_frame(m, rxs);
        lemma_terminated_stays(done, rest);
        lemma_run_frame_append(m, rxs, rest);
    }
}

proof fn lemma_run_frame_append(m: MachineView, a: Seq<bool>, b: Seq<bool>)
    ensures
        run_frame(m, a + b) == run_frame(run_frame(m, a), b),
    decreases b.len(),
{
    if b.len() == 0 {
        assert(a + b =~= a);
    } else {
        assert((a + b).drop_last() =~= a + b.drop_last());
        assert((a + b).last() == b.last());
        lemma_run_frame_append(m, a, b.drop_last());
    }
}

/// The state after the first `j` bits of a `Read` of `n` bits were sampled.
spec fn read_state(m: MachineView, n: nat, b: Seq<bool>, j: nat) -> MachineView {
    MachineView {
        phase: Phase::OnStart,
        program: m.program.update(m.index, CmdView::Read { len: (n - j) as nat }),
        buffer: pushes(m.buffer, b.take(j as int)),
        run: run_after(m.run, m.polarity, b.take(j as int)).0,
        polarity: run_after(m.run, m.polarity, b.take(j as int)).1,
        ..m
    }
}

proof fn lemma_read_prefix(m: MachineView, n: nat, b: Seq<bool>, j: nat)
    requires
        running(m),
        m.phase == Phase::OnStart,
        m.index < MAX_ATTACK_SIZE,
        m.program[m.index] == (CmdView::Read { len: n }),
        b.len() == n,
        j < n,
    ensures
        run_frame(m, b.take(j as int)) == read_state(m, n, b, j),
        0 <= run_after(m.run, m.polarity, b.take(j as int)).0 <= 4,
    decreases j,
{
    lemma_run_after_bounds(m.run, m.polarity, b.take(j as int));
    if j == 0 {
        assert(b.take(0) =~= Seq::<bool>::empty());
        assert(m.program.update(m.index, CmdView::Read { len: n }) =~= m.program);
    } else {
        let k = (j - 1) as nat;
        assert(b.take(j as int).drop_last() =~= b.take(k as int));
        assert(b.take(j as int).last() == b[k as int]);
        lemma_read_prefix(m, n, b, k);
        let prev = read_state(m, n, b, k);
        let e = MachineView { phase: Phase::Evaluate, ..prev };
        let t = crate::attack_machine::track_stuffing(e, b[k as int]);
        let judged = crate::attack_machine::middle_spec(t, b[k as int]);
        assert(judged.1 == Ok::<bool, ()>(false));
        assert(judged.0.program =~= m.program.update(m.index, CmdView::Read { len: (n - j) as nat }));
    }
}

/// A `Read` of `n` bits (one to eight) into a cleared accumulator, followed by
/// a `WaitBuffered`, on a bus that follows the stuffing rule. Once the bus has
/// carried the `n` frame bits `b`, spelling `v`, the `WaitBuffered` has become
/// a wait of `8 * v - 1` bits, to run from the next bit, and the accumulator
/// is cleared; with `v == 0` it has been skipped.
pub proof fn lemma_read_then_wait_buffered(m: MachineView, n: nat, b: Seq<bool>)
    requires
        running(m),
        m.phase == Phase::OnStart,
        m.index + 1 < MAX_ATTACK_SIZE,
        m.program[m.index] == (CmdView::Read { len: n }),
        m.program[m.index + 1] is WaitBuffered,
        m.buffer == 0,
        1 <= n <= 8,
        b.len() == n,
    ensures
        ({
            let after = run_frame(m, b);
            &&& after.phase == Phase::OnStart
            &&& after.buffer == 0
            &&& bits_value(b) > 0 ==> after.index == m.index + 1 && after.program[m.index + 1] == (
            CmdView::Wait { bits: (8 * bits_value(b) - 1) as nat })
            &&& bits_value(b) == 0 ==> after.index >= m.index + 2
        }),
{
    let j = (n - 1) as nat;
    assert(b.take(n as int) =~= b);
    assert(b.take(n as int).drop_last() =~= b.take(j as int));
    lemma_read_prefix(m, n, b, j);
    let prev = read_state(m, n, b, j);
    let e = MachineView { phase: Phase::Evaluate, ..prev };
    let t = crate::attack_machine::track_stuffing(e, b[j as int]);
    let judged = crate::attack_machine::middle_spec(t, b[j as int]);
    assert(judged.1 == Ok::<bool, ()>(true));
    assert(b.take(j as int).push(b[j as int]) =~= b);
    assert(b.drop_last() =~= b.take(j as int));
    assert(judged.0.buffer == pushes(0, b));
    lemma_accumulator_from_zero(b);
    let m3 = MachineView { index: judged.0.index + 1, ..judged.0 };
    let ready = MachineView { phase: Phase::OnStart, ..m3 };
    let ready_stuffed = MachineView { phase: Phase::OnStart, run: 1, polarity: !b[j as int], ..m3 };
    assert(ready.program[m.index + 1] is WaitBuffered);
    if bits_value(b) == 0 {
        lemma_pre_calculate_keeps(MachineView { index: m.index + 2, ..ready });
        lemma_pre_calculate_keeps(MachineView { index: m.index + 2, ..ready_stuffed });
    }
}

} // verus!
