use vstd::prelude::*;

use crate::accumulator::{LineAccumulator, LINE_CAPACITY};

verus! {

/// Identity of one of the two physical serial ports the bridge connects.
///
/// Port A is the console side: it sees its own input echoed byte by byte
/// and receives every completed line from either port. Port B is the
/// device side: it receives only lines completed on port A.
#[derive(Clone, Copy, PartialEq, Eq, Structural, Debug)]
pub enum PortId {
    A,
    B,
}

/// The port a byte did not arrive on.
pub open spec fn other_port(p: PortId) -> PortId {
    match p {
        PortId::A => PortId::B,
        PortId::B => PortId::A,
    }
}

/// A byte is a line terminator exactly when it is the newline byte.
pub open spec fn is_terminator(b: u8) -> bool {
    b == 10u8
}

/// Executable test for the line terminator, equal to the spec-level one.
pub fn byte_is_terminator(b: u8) -> (r: bool)
    ensures
        r == is_terminator(b),
{
    b == 10u8
}

/// The diagnostic line, `Error: Error` followed by a newline, written to
/// the console when a line overflows.
pub open spec fn overflow_notice() -> Seq<u8> {
    seq![69u8, 114u8, 114u8, 111u8, 114u8, 58u8, 32u8, 69u8, 114u8, 114u8, 111u8, 114u8, 10u8]
}

/// The fixed liveness line, `The answer is  42` followed by a newline,
/// written to the console once at startup.
pub open spec fn banner() -> Seq<u8> {
    seq![
        84u8, 104u8, 101u8, 32u8, 97u8, 110u8, 115u8, 119u8, 101u8, 114u8, 32u8, 105u8,
        115u8, 32u8, 32u8, 52u8, 50u8, 10u8,
    ]
}

/// The accumulator contents after one received byte is processed: a
/// non-terminator is appended while there is room; a terminator (the line
/// is complete) or an append on a full buffer (the line overflows and is
/// dropped) leaves the accumulator empty.
pub open spec fn step_acc(acc: Seq<u8>, b: u8) -> Seq<u8> {
    if !is_terminator(b) && acc.len() < LINE_CAPACITY {
        acc.push(b)
    } else {
        Seq::<u8>::empty()
    }
}

/// The bytes written to the console (port A) when one byte arrives on
/// `port` while its accumulator holds `acc`: the completed line for a
/// terminator that fits, the overflow notice for a byte that does not fit,
/// and a single-byte echo for a port A byte that is accumulated.
pub open spec fn step_to_console(port: PortId, acc: Seq<u8>, b: u8) -> Seq<u8> {
    if is_terminator(b) {
        if acc.len() < LINE_CAPACITY {
            acc.push(b)
        } else {
            overflow_notice()
        }
    } else {
        if acc.len() < LINE_CAPACITY {
            if port == PortId::A {
                seq![b]
            } else {
                Seq::<u8>::empty()
            }
        } else {
            overflow_notice()
        }
    }
}

/// The bytes written to the device (port B) when one byte arrives on
/// `port` while its accumulator holds `acc`: the completed line when a
/// terminator that fits arrives on port A, and nothing otherwise.
pub open spec fn step_to_device(port: PortId, acc: Seq<u8>, b: u8) -> Seq<u8> {
    if port == PortId::A && is_terminator(b) && acc.len() < LINE_CAPACITY {
        acc.push(b)
    } else {
        Seq::<u8>::empty()
    }
}

/// What one processed byte asks the caller to write out, in order, on each
/// of the two ports.
pub struct BridgeOutput {
    pub to_console: Vec<u8>,
    pub to_device: Vec<u8>,
}

/// Appends the overflow notice to `dst`.
fn append_overflow_notice(dst: &mut Vec<u8>)
    ensures
        final(dst)@ == old(dst)@ + overflow_notice(),
{
    dst.push(69u8);
    dst.push(114u8);
    dst.push(114u8);
    dst.push(111u8);
    dst.push(114u8);
    dst.push(58u8);
    dst.push(32u8);
    dst.push(69u8);
    dst.push(114u8);
    dst.push(114u8);
    dst.push(111u8);
    dst.push(114u8);
    dst.push(10u8);
    proof {
        assert(dst@ =~= old(dst)@ + overflow_notice());
    }
}

/// The startup banner as bytes, for the caller to write to the console.
pub fn startup_banner() -> (r: Vec<u8>)
    ensures
        r@ == banner(),
{
    let mut v: Vec<u8> = Vec::new();
    v.push(84u8);
    v.push(104u8);
    v.push(101u8);
    v.push(32u8);
    v.push(97u8);
    v.push(110u8);
    v.push(115u8);
    v.push(119u8);
    v.push(101u8);
    v.push(114u8);
    v.push(32u8);
    v.push(105u8);
    v.push(115u8);
    v.push(32u8);
    v.push(32u8);
    v.push(52u8);
    v.push(50u8);
    v.push(10u8);
    proof {
        assert(v@ =~= banner());
    }
    v
}

/// Appends the accumulator's current contents to `dst`.
fn extend_from_accumulator(dst: &mut Vec<u8>, acc: &LineAccumulator)
    ensures
        final(dst)@ == old(dst)@ + acc@,
{
    let s = acc.contents();
    let n = s.len();
    let mut i: usize = 0;
    while i < n
        invariant
            n == s@.len(),
            i <= n,
            s@ == acc@,
            dst@ == old(dst)@ + s@.subrange(0, i as int),
        decreases n - i,
    {
        let b = *vstd::slice::slice_index_get(s, i);
        dst.push(b);
        i = i + 1;
    }
    proof {
        assert(s@.subrange(0, n as int) =~= s@);
    }
}

/// Processes one byte received on `port` against that port's accumulator,
/// returning the bytes to write out on each port.
fn process_byte(acc: &mut LineAccumulator, port: PortId, byte: u8) -> (out: BridgeOutput)
    ensures
        final(acc)@ == step_acc(old(acc)@, byte),
        out.to_console@ == step_to_console(port, old(acc)@, byte),
        out.to_device@ == step_to_device(port, old(acc)@, byte),
{
    let mut out = BridgeOutput { to_console: Vec::new(), to_device: Vec::new() };
    if byte_is_terminator(byte) {
        match acc.append(byte) {
            Ok(_) => {
                extend_from_accumulator(&mut out.to_console, acc);
                if port == PortId::A {
                    extend_from_accumulator(&mut out.to_device, acc);
                }
                acc.clear();
            },
            Err(_) => {
                append_overflow_notice(&mut out.to_console);
                acc.clear();
            },
        }
    } else {
        match acc.append(byte) {
            Ok(_) => {
                if port == PortId::A {
                    out.to_console.push(byte);
                    proof {
                        assert(out.to_console@ =~= seq![byte]);
                    }
                }
            },
            Err(_) => {
                append_overflow_notice(&mut out.to_console);
                acc.clear();
            },
        }
    }
    out
}

/// The bridge's whole state: one line accumulator per port. The caller
/// owns the hardware; it polls both ports and hands every received byte to
/// `on_byte`.
pub struct Bridge {
    acc_a: LineAccumulator,
    acc_b: LineAccumulator,
}

impl Bridge {
    /// The bytes currently accumulated for `port`.
    pub closed spec fn acc_view(&self, port: PortId) -> Seq<u8> {
        match port {
            PortId::A => self.acc_a@,
            PortId::B => self.acc_b@,
        }
    }

    /// A fresh bridge with both accumulators empty.
    pub fn new() -> (r: Bridge)
        ensures
            r.acc_view(PortId::A) == Seq::<u8>::empty(),
            r.acc_view(PortId::B) == Seq::<u8>::empty(),
    {
        Bridge { acc_a: LineAccumulator::new(), acc_b: LineAccumulator::new() }
    }

    /// Read-only view of the bytes accumulated so far for `port`.
    pub fn accumulated(&self, port: PortId) -> (r: &[u8])
        ensures
            r@ == self.acc_view(port),
    {
        match port {
            PortId::A => self.acc_a.contents(),
            PortId::B => self.acc_b.contents(),
        }
    }

    /// Processes one byte received on `port`: the owning accumulator moves
    /// to `step_acc` of its old contents, the other port's accumulator is
    /// untouched, and the returned output holds exactly the bytes the
    /// routing policy writes to the console and to the device.
    pub fn on_byte(&mut self, port: PortId, byte: u8) -> (out: BridgeOutput)
        ensures
            final(self).acc_view(port) == step_acc(old(self).acc_view(port), byte),
            final(self).acc_view(other_port(port)) == old(self).acc_view(other_port(port)),
            out.to_console@ == step_to_console(port, old(self).acc_view(port), byte),
            out.to_device@ == step_to_device(port, old(self).acc_view(port), byte),
    {
        match port {
            PortId::A => process_byte(&mut self.acc_a, PortId::A, byte),
            PortId::B => process_byte(&mut self.acc_b, PortId::B, byte),
        }
    }
}

} // verus!
