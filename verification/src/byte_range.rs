//! Byte ranges of stored files: which bytes a local read delivers, how a
//! local reader advances, and the `Range` header sent for a remote read.
use vstd::prelude::*;

use crate::text::{decimal, push_char, push_decimal};

verus! {

/// One end of a byte range.
#[derive(Clone, Copy, Debug, PartialEq, Eq)]
pub enum RangeBound {
    Included(u64),
    Excluded(u64),
    Unbounded,
}

/// Whether the range can be turned into positions without going past the
/// ends of `u64`: an excluded start below `u64::MAX` and an excluded end
/// above zero.
pub open spec fn range_fits(range: (RangeBound, RangeBound)) -> bool {
    &&& !(range.0 matches RangeBound::Excluded(s) && s == u64::MAX)
    &&& !(range.1 matches RangeBound::Excluded(e) && e == 0)
}

/// The first position that a local read delivers.
pub open spec fn window_start(b: RangeBound) -> nat {
    match b {
        RangeBound::Unbounded => 0,
        RangeBound::Included(s) => s as nat,
        RangeBound::Excluded(s) => (s + 1) as nat,
    }
}

/// The position at which a local read stops (that byte is not delivered).
pub open spec fn window_end(b: RangeBound, size: u64) -> nat {
    match b {
        RangeBound::Unbounded => size as nat,
        RangeBound::Included(e) => e as nat,
        RangeBound::Excluded(e) => (e - 1) as nat,
    }
}

/// The state of a local read: the next position to read and the position
/// at which it stops.
#[derive(Clone, Copy, Debug, PartialEq, Eq)]
pub struct ReadWindow {
    pos: u64,
    end: u64,
}

impl View for ReadWindow {
    /// The next position to read and the stop position.
    type V = (nat, nat);

    closed spec fn view(&self) -> (nat, nat) {
        (self.pos as nat, self.end as nat)
    }
}

/// The bytes still to be delivered.
pub open spec fn window_left(w: (nat, nat)) -> nat {
    if w.0 >= w.1 {
        0
    } else {
        (w.1 - w.0) as nat
    }
}

impl ReadWindow {
    /// The window of a local read of `range` in a file of `size` bytes: it
    /// starts at the range's start and stops at its end; an included end is
    /// itself not delivered, and an open end stops at the file's size.
    pub fn new(range: (RangeBound, RangeBound), size: u64) -> (r: ReadWindow)
        requires
            range_fits(range),
        ensures
            r@ == (window_start(range.0), window_end(range.1, size)),
    {
        let pos = match range.0 {
            RangeBound::Unbounded => 0,
            RangeBound::Included(s) => s,
            RangeBound::Excluded(s) => s + 1,
        };
        let end = match range.1 {
            RangeBound::Unbounded => size,
            RangeBound::Included(e) => e,
            RangeBound::Excluded(e) => e - 1,
        };
        ReadWindow { pos, end }
    }

    /// The position the next read starts at.
    pub fn position(&self) -> (r: u64)
        ensures
            r == self@.0,
    {
        self.pos
    }

    /// Whether every byte of the window has been delivered.
    pub fn is_done(&self) -> (r: bool)
        ensures
            r == (window_left(self@) == 0),
    {
        self.pos >= self.end
    }

    /// How many bytes to ask the file for when the caller's buffer has
    /// `remaining` free bytes: none at the end of the window, otherwise the
    /// free space, but no more than the window has left (counted in `usize`).
    pub fn next_request(&self, remaining: usize) -> (r: usize)
        ensures
            r == (if self@.0 >= self@.1 {
                0
            } else if remaining <= ((self@.1 - self@.0) as u64) as usize {
                remaining
            } else {
                ((self@.1 - self@.0) as u64) as usize
            }),
            r <= window_left(self@),
            window_left(self@) <= usize::MAX ==> r == request_size(self@, remaining as nat),
    {
        if self.pos >= self.end {
            return 0;
        }
        let max_bytes = (self.end - self.pos) as usize;
        if remaining <= max_bytes {
            remaining
        } else {
            max_bytes
        }
    }

    /// Records that the file delivered `n` bytes.
    pub fn advance(&mut self, n: usize)
        requires
            n <= window_left(old(self)@),
        ensures
            final(self)@ == ((old(self)@.0 + n) as nat, old(self)@.1),
            window_left(final(self)@) == window_left(old(self)@) - n,
    {
        self.pos = self.pos + n as u64;
    }
}

/// How many bytes a read asks for when the caller's buffer has `remaining`
/// free bytes: the free space, but no more than the window has left.
pub open spec fn request_size(w: (nat, nat), remaining: nat) -> nat {
    if remaining <= window_left(w) {
        remaining
    } else {
        window_left(w)
    }
}

/// What a reader delivers, read after read, adds up to the window: after
/// reads of `ns` bytes, each no more than was left, the bytes left are the
/// bytes of the window less their sum.
pub open spec fn sum_of(ns: Seq<nat>) -> nat
    decreases ns.len(),
{
    if ns.len() == 0 {
        0
    } else {
        sum_of(ns.drop_last()) + ns.last()
    }
}

/// The bytes left after a run of reads (see `sum_of`).
pub open spec fn left_after(w: (nat, nat), ns: Seq<nat>) -> (nat, nat)
    decreases ns.len(),
{
    if ns.len() == 0 {
        w
    } else {
        let v = left_after(w, ns.drop_last());
        ((v.0 + ns.last()) as nat, v.1)
    }
}

/// A reader delivers exactly the bytes of its window: whatever sizes the
/// reads come in, as long as each is no more than what is left, the bytes
/// delivered plus the bytes left make the window.
pub proof fn law_reads_cover_window(w: (nat, nat), ns: Seq<nat>)
    requires
        forall|k: int| 0 <= k < ns.len() ==> #[trigger] ns[k] <= window_left(left_after(w, ns.take(k))),
    ensures
        sum_of(ns) + window_left(left_after(w, ns)) == window_left(w),
    decreases ns.len(),
{
    if ns.len() > 0 {
        let d = ns.drop_last();
        assert forall|k: int| 0 <= k < d.len() implies #[trigger] d[k] <= window_left(left_after(w, d.take(k))) by {
            assert(d.take(k) == ns.take(k));
            assert(ns[k] <= window_left(left_after(w, ns.take(k))));
        }
        law_reads_cover_window(w, d);
        assert(ns.take(ns.len() - 1) == d);
        assert(ns[ns.len() - 1] <= window_left(left_after(w, ns.take(ns.len() - 1))));
    }
}

/// Where a run of reads has got to: the position moves by the bytes
/// delivered, and the stop position stays.
proof fn lemma_left_after_position(w: (nat, nat), ns: Seq<nat>)
    ensures
        left_after(w, ns).0 == w.0 + sum_of(ns),
        left_after(w, ns).1 == w.1,
    decreases ns.len(),
{
    if ns.len() > 0 {
        lemma_left_after_position(w, ns.drop_last());
    }
}

/// Reads in a row, each delivering no more than it asked for (`ns[k]` bytes
/// for a buffer with `rs[k]` free bytes, see `request_size`): read `k`
/// delivers the bytes from the window's start plus what the reads before it
/// delivered; no read goes past the free space or the window's end; a read
/// at the end of the window asks for nothing; and the bytes delivered plus
/// the bytes left make the window.
pub proof fn law_read_steps(w: (nat, nat), rs: Seq<nat>, ns: Seq<nat>)
    requires
        rs.len() == ns.len(),
        forall|k: int| 0 <= k < ns.len() ==> #[trigger] ns[k] <= request_size(left_after(w, ns.take(k)), rs[k]),
    ensures
        forall|k: int| 0 <= k < ns.len() ==> #[trigger] left_after(w, ns.take(k)).0 == w.0 + sum_of(ns.take(k)),
        forall|k: int| 0 <= k < ns.len() ==> #[trigger] ns[k] <= rs[k],
        forall|k: int| 0 <= k < ns.len() ==> window_left(left_after(w, #[trigger] ns.take(k))) == 0 ==> ns[k] == 0,
        left_after(w, ns) == ((w.0 + sum_of(ns)) as nat, w.1),
        sum_of(ns) <= window_left(w),
        sum_of(ns) + window_left(left_after(w, ns)) == window_left(w),
        window_left(w) > 0 ==> w.0 + sum_of(ns) <= w.1,
{
    assert forall|k: int| 0 <= k < ns.len() implies #[trigger] left_after(w, ns.take(k)).0 == w.0 + sum_of(
        ns.take(k),
    ) by {
        lemma_left_after_position(w, ns.take(k));
    }
    assert forall|k: int| 0 <= k < ns.len() implies #[trigger] ns[k] <= window_left(
        left_after(w, ns.take(k)),
    ) by {
        assert(ns[k] <= request_size(left_after(w, ns.take(k)), rs[k]));
    }
    law_reads_cover_window(w, ns);
    lemma_left_after_position(w, ns);
}

/// The start of a header read and of a local read agree: the header asks
/// from the byte at which a local read of the same range begins, so an
/// unbounded start reads from the file's first byte in both.
pub proof fn law_header_starts_at_window_start(range: (RangeBound, RangeBound))
    requires
        range_fits(range),
    ensures
        range_header(range).subrange(0, 6 + decimal(window_start(range.0)).len() as int)
            == seq!['b', 'y', 't', 'e', 's', '='] + decimal(window_start(range.0)),
        range_header((RangeBound::Unbounded, range.1)) == range_header((RangeBound::Included(0), range.1)),
{
    let start = decimal(window_start(range.0));
    let end = match range.1 {
        RangeBound::Included(e) => decimal(e as nat),
        RangeBound::Excluded(e) => decimal((e - 1) as nat),
        RangeBound::Unbounded => Seq::<char>::empty(),
    };
    assert(range_header(range) == seq!['b', 'y', 't', 'e', 's', '='] + start + seq!['-'] + end);
    assert(range_header(range).subrange(0, 6 + start.len() as int) =~= seq!['b', 'y', 't', 'e', 's', '='] + start);
}

/// The characters of a `Range` header value (see `range_header_value`).
pub open spec fn range_header(range: (RangeBound, RangeBound)) -> Seq<char> {
    let start = match range.0 {
        RangeBound::Included(s) => decimal(s as nat),
        RangeBound::Excluded(s) => decimal((s + 1) as nat),
        RangeBound::Unbounded => decimal(0),
    };
    let end = match range.1 {
        RangeBound::Included(e) => decimal(e as nat),
        RangeBound::Excluded(e) => decimal((e - 1) as nat),
        RangeBound::Unbounded => Seq::<char>::empty(),
    };
    seq!['b', 'y', 't', 'e', 's', '='] + start + seq!['-'] + end
}

/// The `Range` header that asks a server for `range` of a file: `bytes=`,
/// the first byte (`0` when the start is unbounded, so that the read begins
/// at the file's first byte, as a local read does), `-` and the last byte,
/// left out when the end is unbounded.
pub fn range_header_value(range: (RangeBound, RangeBound)) -> (r: String)
    requires
        range_fits(range),
    ensures
        r@ == range_header(range),
{
    let mut r = String::new();
    push_char(&mut r, 'b');
    push_char(&mut r, 'y');
    push_char(&mut r, 't');
    push_char(&mut r, 'e');
    push_char(&mut r, 's');
    push_char(&mut r, '=');
    let ghost head = r@;
    match range.0 {
        RangeBound::Included(s) => push_decimal(&mut r, s),
        RangeBound::Excluded(s) => push_decimal(&mut r, s + 1),
        RangeBound::Unbounded => push_decimal(&mut r, 0),
    }
    let ghost with_start = r@;
    push_char(&mut r, '-');
    match range.1 {
        RangeBound::Included(e) => push_decimal(&mut r, e),
        RangeBound::Excluded(e) => push_decimal(&mut r, e - 1),
        RangeBound::Unbounded => {},
    }
    proof {
        assert(head =~= seq!['b', 'y', 't', 'e', 's', '=']);
        assert(r@ =~= range_header(range));
    }
    r
}

/// An excluded bound asks for the same bytes as the included bound next to
/// it, in the header as in a local read.
pub proof fn law_excluded_is_next_included(a: u64, b: u64, other: RangeBound, size: u64)
    requires
        a < u64::MAX,
        b > 0,
        range_fits((RangeBound::Included((a + 1) as u64), other)),
        range_fits((other, RangeBound::Included((b - 1) as u64))),
    ensures
        range_header((RangeBound::Excluded(a), other)) == range_header(
            (RangeBound::Included((a + 1) as u64), other),
        ),
        range_header((other, RangeBound::Excluded(b))) == range_header(
            (other, RangeBound::Included((b - 1) as u64)),
        ),
        window_start(RangeBound::Excluded(a)) == window_start(RangeBound::Included((a + 1) as u64)),
        window_end(RangeBound::Excluded(b), size) == window_end(RangeBound::Included((b - 1) as u64), size),
{
}

} // verus!
