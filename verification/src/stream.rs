use vstd::prelude::*;

use crate::accumulator::LINE_CAPACITY;
use crate::bridge::{
    is_terminator, other_port, overflow_notice, step_acc, step_to_console, step_to_device, Bridge,
    BridgeOutput, PortId,
};

verus! {

/// The accumulated effect of feeding a whole byte sequence to one port:
/// the accumulator's final contents and everything written out on each of
/// the two ports, in order.
pub struct RunResult {
    pub acc: Seq<u8>,
    pub to_console: Seq<u8>,
    pub to_device: Seq<u8>,
}

/// Folds the per-byte step over `input`, starting from accumulator
/// contents `acc`, collecting the bytes written to the console and to the
/// device.
pub open spec fn run(port: PortId, acc: Seq<u8>, input: Seq<u8>) -> RunResult
    decreases input.len(),
{
    if input.len() == 0 {
        RunResult { acc, to_console: Seq::<u8>::empty(), to_device: Seq::<u8>::empty() }
    } else {
        let b = input[0];
        let rest = run(port, step_acc(acc, b), input.skip(1));
        RunResult {
            acc: rest.acc,
            to_console: step_to_console(port, acc, b) + rest.to_console,
            to_device: step_to_device(port, acc, b) + rest.to_device,
        }
    }
}

/// True when no byte of `s` is a line terminator.
pub open spec fn no_terminator(s: Seq<u8>) -> bool {
    forall|i: int| 0 <= i < s.len() ==> !is_terminator(s[i])
}

impl Bridge {
    /// Processes every byte of `bytes` as if received in order on `port`:
    /// the accumulator and the bytes written out on each port are exactly
    /// the fold of the per-byte step over the whole input.
    pub fn on_bytes(&mut self, port: PortId, bytes: &[u8]) -> (out: BridgeOutput)
        ensures
            final(self).acc_view(port) == run(port, old(self).acc_view(port), bytes@).acc,
            final(self).acc_view(other_port(port)) == old(self).acc_view(other_port(port)),
            out.to_console@ == run(port, old(self).acc_view(port), bytes@).to_console,
            out.to_device@ == run(port, old(self).acc_view(port), bytes@).to_device,
    {
        let mut out = BridgeOutput { to_console: Vec::new(), to_device: Vec::new() };
        let n = bytes.len();
        let mut i: usize = 0;
        while i < n
            invariant
                i <= n,
                n == bytes@.len(),
                self.acc_view(port) == run(
                    port,
                    old(self).acc_view(port),
                    bytes@.take(i as int),
                ).acc,
                self.acc_view(other_port(port)) == old(self).acc_view(other_port(port)),
                out.to_console@ == run(
                    port,
                    old(self).acc_view(port),
                    bytes@.take(i as int),
                ).to_console,
                out.to_device@ == run(
                    port,
                    old(self).acc_view(port),
                    bytes@.take(i as int),
                ).to_device,
            decreases n - i,
        {
            let b = *vstd::slice::slice_index_get(bytes, i);
            proof {
                let acc0 = old(self).acc_view(port);
                let done = bytes@.take(i as int);
                lemma_run_split(port, acc0, done, seq![b]);
                lemma_run_one(port, run(port, acc0, done).acc, b);
                assert(done + seq![b] =~= bytes@.take(i as int + 1));
                assert(run(port, acc0, done).to_console + step_to_console(
                    port,
                    run(port, acc0, done).acc,
                    b,
                ) =~= run(port, acc0, done + seq![b]).to_console);
                assert(run(port, acc0, done).to_device + step_to_device(
                    port,
                    run(port, acc0, done).acc,
                    b,
                ) =~= run(port, acc0, done + seq![b]).to_device);
            }
            let mut step_out = self.on_byte(port, b);
            out.to_console.append(&mut step_out.to_console);
            out.to_device.append(&mut step_out.to_device);
            i = i + 1;
        }
        proof {
            assert(bytes@.take(n as int) =~= bytes@);
        }
        out
    }
}

/// Feeding terminator-free bytes that fit in the remaining room appends
/// them all, echoing each on the console when they arrive on port A and
/// writing nothing anywhere else.
proof fn lemma_accumulate_general(port: PortId, acc: Seq<u8>, input: Seq<u8>)
    requires
        no_terminator(input),
        acc.len() + input.len() <= LINE_CAPACITY,
    ensures
        run(port, acc, input).acc == acc + input,
        run(port, acc, input).to_console == (if port == PortId::A {
            input
        } else {
            Seq::<u8>::empty()
        }),
        run(port, acc, input).to_device == Seq::<u8>::empty(),
    decreases input.len(),
{
    if input.len() == 0 {
        assert(acc + input =~= acc);
    } else {
        let b = input[0];
        assert(!is_terminator(b));
        assert(step_acc(acc, b) == acc.push(b));
        lemma_accumulate_general(port, acc.push(b), input.skip(1));
        assert(acc.push(b) + input.skip(1) =~= acc + input);
        if port == PortId::A {
            assert(seq![b] + input.skip(1) =~= input);
        } else {
            assert(Seq::<u8>::empty() + Seq::<u8>::empty() =~= Seq::<u8>::empty());
        }
    }
}

/// A sequence of bytes without a terminator, of length at most the line
/// capacity, fed to either port's empty accumulator, is accumulated
/// exactly and in order.
pub proof fn lemma_partial_line_accumulates(port: PortId, input: Seq<u8>)
    requires
        no_terminator(input),
        input.len() <= LINE_CAPACITY,
    ensures
        run(port, Seq::<u8>::empty(), input).acc == input,
{
    lemma_accumulate_general(port, Seq::<u8>::empty(), input);
    assert(Seq::<u8>::empty() + input =~= input);
}

/// Running a single byte is exactly one step: the accumulator moves to
/// `step_acc`, and each port receives that step's output alone.
proof fn lemma_run_one(port: PortId, acc: Seq<u8>, b: u8)
    ensures
        run(port, acc, seq![b]).acc == step_acc(acc, b),
        run(port, acc, seq![b]).to_console == step_to_console(port, acc, b),
        run(port, acc, seq![b]).to_device == step_to_device(port, acc, b),
{
    let input = seq![b];
    assert(input[0] == b);
    assert(input.skip(1) =~= Seq::<u8>::empty());
    assert(run(port, step_acc(acc, b), Seq::<u8>::empty()).acc == step_acc(acc, b));
    assert(step_to_console(port, acc, b) + Seq::<u8>::empty() =~= step_to_console(port, acc, b));
    assert(step_to_device(port, acc, b) + Seq::<u8>::empty() =~= step_to_device(port, acc, b));
}

/// Feeding a terminator-free body followed by the terminator, when body
/// and terminator together fit in the remaining room, completes the line:
/// the accumulator is left empty, the console receives the port A echoes
/// (if any) followed by the whole line, and the device receives the whole
/// line exactly when it arrived on port A.
proof fn lemma_feed_line(port: PortId, acc: Seq<u8>, body: Seq<u8>)
    requires
        no_terminator(body),
        acc.len() + body.len() < LINE_CAPACITY,
    ensures
        run(port, acc, body.push(10u8)).acc == Seq::<u8>::empty(),
        run(port, acc, body.push(10u8)).to_console == (if port == PortId::A {
            body + (acc + body).push(10u8)
        } else {
            (acc + body).push(10u8)
        }),
        run(port, acc, body.push(10u8)).to_device == (if port == PortId::A {
            (acc + body).push(10u8)
        } else {
            Seq::<u8>::empty()
        }),
    decreases body.len(),
{
    let input = body.push(10u8);
    if body.len() == 0 {
        assert(input =~= seq![10u8]);
        lemma_run_one(port, acc, 10u8);
        assert(acc + body =~= acc);
        assert(step_to_console(port, acc, 10u8) == acc.push(10u8));
        if port == PortId::A {
            assert(body + (acc + body).push(10u8) =~= acc.push(10u8));
        }
    } else {
        let b = body[0];
        assert(input[0] == b);
        assert(!is_terminator(b));
        assert(step_acc(acc, b) == acc.push(b));
        assert(input.skip(1) =~= body.skip(1).push(10u8));
        lemma_feed_line(port, acc.push(b), body.skip(1));
        assert(acc.push(b) + body.skip(1) =~= acc + body);
        if port == PortId::A {
            assert(step_to_console(port, acc, b) == seq![b]);
            assert(seq![b] + (body.skip(1) + (acc + body).push(10u8)) =~= body + (acc + body).push(
                10u8,
            ));
            assert(Seq::<u8>::empty() + (acc + body).push(10u8) =~= (acc + body).push(10u8));
        } else {
            assert(step_to_console(port, acc, b) == Seq::<u8>::empty());
            assert(Seq::<u8>::empty() + (acc + body).push(10u8) =~= (acc + body).push(10u8));
            assert(Seq::<u8>::empty() + Seq::<u8>::empty() =~= Seq::<u8>::empty());
        }
    }
}

/// A full line arriving on port A — a terminator-free body followed by the
/// terminator, at most the line capacity in all — is echoed byte by byte
/// and then written whole, terminator included, to both ports, and the
/// accumulator is empty afterwards.
pub proof fn lemma_console_line_forwarded(body: Seq<u8>)
    requires
        no_terminator(body),
        body.len() + 1 <= LINE_CAPACITY,
    ensures
        run(PortId::A, Seq::<u8>::empty(), body.push(10u8)).acc == Seq::<u8>::empty(),
        run(PortId::A, Seq::<u8>::empty(), body.push(10u8)).to_console == body + body.push(10u8),
        run(PortId::A, Seq::<u8>::empty(), body.push(10u8)).to_device == body.push(10u8),
{
    lemma_feed_line(PortId::A, Seq::<u8>::empty(), body);
    assert(Seq::<u8>::empty() + body =~= body);
}

/// A full line arriving on port B — a terminator-free body followed by the
/// terminator, at most the line capacity in all — is written whole,
/// terminator included, to port A only; port B receives nothing, and the
/// accumulator is empty afterwards.
pub proof fn lemma_device_line_forwarded(body: Seq<u8>)
    requires
        no_terminator(body),
        body.len() + 1 <= LINE_CAPACITY,
    ensures
        run(PortId::B, Seq::<u8>::empty(), body.push(10u8)).acc == Seq::<u8>::empty(),
        run(PortId::B, Seq::<u8>::empty(), body.push(10u8)).to_console == body.push(10u8),
        run(PortId::B, Seq::<u8>::empty(), body.push(10u8)).to_device == Seq::<u8>::empty(),
{
    lemma_feed_line(PortId::B, Seq::<u8>::empty(), body);
    assert(Seq::<u8>::empty() + body =~= body);
}

/// Feeding one byte more than the line capacity, none of them terminators,
/// to either port's empty accumulator writes the overflow notice to the
/// console exactly once — preceded, on port A, only by the echoes of the
/// bytes that fit — forwards nothing to the device, and leaves the
/// accumulator empty.
pub proof fn lemma_overflow_drops_line(port: PortId, input: Seq<u8>)
    requires
        no_terminator(input),
        input.len() == LINE_CAPACITY + 1,
    ensures
        run(port, Seq::<u8>::empty(), input).acc == Seq::<u8>::empty(),
        run(port, Seq::<u8>::empty(), input).to_console == (if port == PortId::A {
            input.take(LINE_CAPACITY as int) + overflow_notice()
        } else {
            overflow_notice()
        }),
        run(port, Seq::<u8>::empty(), input).to_device == Seq::<u8>::empty(),
{
    let head = input.take(LINE_CAPACITY as int);
    let last = input[LINE_CAPACITY as int];
    lemma_run_split(port, Seq::<u8>::empty(), head, seq![last]);
    assert(head + seq![last] =~= input);
    lemma_accumulate_general(port, Seq::<u8>::empty(), head);
    let full = Seq::<u8>::empty() + head;
    assert(full.len() == LINE_CAPACITY);
    assert(!is_terminator(last));
    assert(step_acc(full, last) == Seq::<u8>::empty());
    assert(step_to_console(port, full, last) == overflow_notice());
    assert(step_to_device(port, full, last) == Seq::<u8>::empty());
    lemma_run_one(port, full, last);
    if port == PortId::A {
        assert(head + overflow_notice() =~= input.take(LINE_CAPACITY as int) + overflow_notice());
    } else {
        assert(Seq::<u8>::empty() + overflow_notice() =~= overflow_notice());
    }
    assert(Seq::<u8>::empty() + Seq::<u8>::empty() =~= Seq::<u8>::empty());
}

/// Running one input after another is the same as running their
/// concatenation: the second run starts from the accumulator the first
/// leaves, and the output on each port is the two outputs in order.
pub proof fn lemma_run_split(port: PortId, acc: Seq<u8>, first: Seq<u8>, second: Seq<u8>)
    ensures
        run(port, acc, first + second).acc == run(port, run(port, acc, first).acc, second).acc,
        run(port, acc, first + second).to_console == run(port, acc, first).to_console + run(
            port,
            run(port, acc, first).acc,
            second,
        ).to_console,
        run(port, acc, first + second).to_device == run(port, acc, first).to_device + run(
            port,
            run(port, acc, first).acc,
            second,
        ).to_device,
    decreases first.len(),
{
    if first.len() == 0 {
        assert(first + second =~= second);
        assert(run(port, acc, first).acc == acc);
        assert(Seq::<u8>::empty() + run(port, acc, second).to_console =~= run(
            port,
            acc,
            second,
        ).to_console);
        assert(Seq::<u8>::empty() + run(port, acc, second).to_device =~= run(
            port,
            acc,
            second,
        ).to_device);
    } else {
        let b = first[0];
        assert((first + second)[0] == b);
        assert((first + second).skip(1) =~= first.skip(1) + second);
        lemma_run_split(port, step_acc(acc, b), first.skip(1), second);
        let mid = run(port, step_acc(acc, b), first.skip(1));
        let tail = run(port, run(port, acc, first).acc, second);
        assert(step_to_console(port, acc, b) + (mid.to_console + tail.to_console) =~= (
        step_to_console(port, acc, b) + mid.to_console) + tail.to_console);
        assert(step_to_device(port, acc, b) + (mid.to_device + tail.to_device) =~= (
        step_to_device(port, acc, b) + mid.to_device) + tail.to_device);
    }
}

/// After any completed line — forwarded on its terminator, or dropped
/// because a byte found the accumulator full — the accumulator is empty
/// again and accepts a fresh terminator-free line of up to the full
/// capacity, exactly and in order.
pub proof fn lemma_fresh_after_line(port: PortId, acc: Seq<u8>, b: u8, fresh: Seq<u8>)
    requires
        is_terminator(b) || acc.len() >= LINE_CAPACITY,
        no_terminator(fresh),
        fresh.len() <= LINE_CAPACITY,
    ensures
        step_acc(acc, b) == Seq::<u8>::empty(),
        run(port, step_acc(acc, b), fresh).acc == fresh,
{
    lemma_partial_line_accumulates(port, fresh);
}

} // verus!
