//! The image buffer as a sequence of bytes, the writing of fragments into it,
//! and what holds of the buffer once fragments were written in some order.

use crate::model::ByteSpan;
use vstd::prelude::*;

verus! {

/// The buffer with `data` written over the bytes from `offset` on.
pub open spec fn write_at(buffer: Seq<u8>, offset: int, data: Seq<u8>) -> Seq<u8>
    recommends
        0 <= offset,
        offset + data.len() <= buffer.len(),
{
    Seq::new(
        buffer.len(),
        |k: int|
            if offset <= k < offset + data.len() {
                data[k - offset]
            } else {
                buffer[k]
            },
    )
}

/// Where span `i` starts if the spans before it lie back to back from byte 0.
pub open spec fn start_of(spans: Seq<ByteSpan>, i: int) -> int
    decreases i,
{
    if i <= 0 {
        0
    } else {
        start_of(spans, i - 1) + spans[i - 1].count
    }
}

/// The spans lie back to back, the first at byte 0 and the last ending at byte
/// `len`: together they take a buffer of `len` bytes apart.
pub open spec fn tiles(spans: Seq<ByteSpan>, len: int) -> bool {
    &&& forall|i: int| 0 <= i < spans.len() ==> (#[trigger] spans[i]).offset == start_of(spans, i)
    &&& start_of(spans, spans.len() as int) == len
}

/// One payload for each span, each as long as its span.
pub open spec fn payloads_match(spans: Seq<ByteSpan>, payloads: Seq<Seq<u8>>) -> bool {
    &&& payloads.len() == spans.len()
    &&& forall|i: int| 0 <= i < spans.len() ==> (#[trigger] payloads[i]).len() == spans[i].count
}

/// Every entry of `order` is the index of a span.
pub open spec fn order_in_range(order: Seq<int>, n: int) -> bool {
    forall|j: int| 0 <= j < order.len() ==> 0 <= #[trigger] order[j] < n
}

/// Every span's index occurs in `order`.
pub open spec fn order_is_complete(order: Seq<int>, n: int) -> bool {
    forall|i: int| 0 <= i < n ==> order.contains(i)
}

/// The buffer after the payloads named by `order` were written, one after the
/// other, each at its span.
pub open spec fn replay(
    buffer: Seq<u8>,
    spans: Seq<ByteSpan>,
    payloads: Seq<Seq<u8>>,
    order: Seq<int>,
) -> Seq<u8>
    decreases order.len(),
{
    if order.len() == 0 {
        buffer
    } else {
        let i = order.last();
        write_at(
            replay(buffer, spans, payloads, order.drop_last()),
            spans[i].offset as int,
            payloads[i],
        )
    }
}

/// Starts grow with the index, by at least the bytes of the spans between.
pub proof fn start_of_is_monotonic(spans: Seq<ByteSpan>, i: int, j: int)
    requires
        0 <= i <= j,
    ensures
        start_of(spans, i) <= start_of(spans, j),
        i < j ==> start_of(spans, i) + spans[i].count <= start_of(spans, j),
    decreases j - i,
{
    if i < j {
        start_of_is_monotonic(spans, i, j - 1);
    }
}

/// No overlaps: two different spans of a tiling have no byte in common, and
/// each span lies within the buffer.
pub proof fn tiling_has_no_overlap(spans: Seq<ByteSpan>, len: int, i: int, j: int)
    requires
        tiles(spans, len),
        0 <= i < spans.len(),
        0 <= j < spans.len(),
        i != j,
    ensures
        spans[i].disjoint(spans[j]),
        spans[i].spec_fits(len),
{
    start_of_is_monotonic(spans, i, spans.len() as int);
    if i < j {
        start_of_is_monotonic(spans, i, j);
    } else {
        start_of_is_monotonic(spans, j, i);
    }
}

/// No gaps: every byte of the buffer belongs to a span of the tiling. The
/// index of that span is returned.
pub proof fn tiling_has_no_gap(spans: Seq<ByteSpan>, len: int, k: int) -> (i: int)
    requires
        tiles(spans, len),
        0 <= k < len,
    ensures
        0 <= i < spans.len(),
        spans[i].covers(k),
{
    owner_among(spans, spans.len() as int, k)
}

proof fn owner_among(spans: Seq<ByteSpan>, n: int, k: int) -> (i: int)
    requires
        0 <= n <= spans.len(),
        0 <= k < start_of(spans, n),
        forall|i: int| 0 <= i < spans.len() ==> (#[trigger] spans[i]).offset == start_of(spans, i),
    ensures
        0 <= i < n,
        spans[i].covers(k),
    decreases n,
{
    if k >= start_of(spans, n - 1) {
        n - 1
    } else {
        owner_among(spans, n - 1, k)
    }
}

/// What a replay leaves at each byte: the payload byte of the span that the
/// byte belongs to, if that span was written, and the old byte if it was not.
pub proof fn replay_bytes(
    buffer: Seq<u8>,
    spans: Seq<ByteSpan>,
    payloads: Seq<Seq<u8>>,
    order: Seq<int>,
)
    requires
        tiles(spans, buffer.len() as int),
        payloads_match(spans, payloads),
        order_in_range(order, spans.len() as int),
    ensures
        replay(buffer, spans, payloads, order).len() == buffer.len(),
        forall|i: int, k: int|
            0 <= i < spans.len() && #[trigger] spans[i].covers(k) ==> #[trigger] replay(
                buffer,
                spans,
                payloads,
                order,
            )[k] == if order.contains(i) {
                payloads[i][k - spans[i].offset]
            } else {
                buffer[k]
            },
    decreases order.len(),
{
    let len = buffer.len() as int;
    if order.len() > 0 {
        let last = order.last();
        let before = order.drop_last();
        assert(order_in_range(before, spans.len() as int)) by {
            assert forall|j: int| 0 <= j < before.len() implies 0 <= #[trigger] before[j]
                < spans.len() by {
                assert(before[j] == order[j]);
            }
        }
        replay_bytes(buffer, spans, payloads, before);
        let earlier = replay(buffer, spans, payloads, before);
        let now = replay(buffer, spans, payloads, order);
        assert(0 <= last < spans.len()) by {
            assert(order[order.len() - 1] == last);
        }
        assert forall|i: int, k: int| 0 <= i < spans.len() && #[trigger] spans[i].covers(k) implies
            #[trigger] now[k] == if order.contains(i) {
            payloads[i][k - spans[i].offset]
        } else {
            buffer[k]
        } by {
            start_of_is_monotonic(spans, i, spans.len() as int);
            assert(0 <= k < len);
            if i == last {
                assert(order[order.len() - 1] == i);
            } else {
                tiling_has_no_overlap(spans, len, i, last);
                assert(!spans[last].covers(k));
                assert(now[k] == earlier[k]);
                assert(order.contains(i) == before.contains(i)) by {
                    if order.contains(i) {
                        let j = choose|j: int| 0 <= j < order.len() && order[j] == i;
                        assert(j < order.len() - 1);
                        assert(before[j] == i);
                    }
                    if before.contains(i) {
                        let j = choose|j: int| 0 <= j < before.len() && before[j] == i;
                        assert(order[j] == i);
                    }
                }
            }
        }
    }
}

/// Writing every fragment once or more, in whatever order, leaves each
/// fragment's payload at its span.
pub proof fn reassembly_holds_every_payload(
    buffer: Seq<u8>,
    spans: Seq<ByteSpan>,
    payloads: Seq<Seq<u8>>,
    order: Seq<int>,
)
    requires
        tiles(spans, buffer.len() as int),
        payloads_match(spans, payloads),
        order_in_range(order, spans.len() as int),
        order_is_complete(order, spans.len() as int),
    ensures
        replay(buffer, spans, payloads, order).len() == buffer.len(),
        forall|i: int|
            0 <= i < spans.len() ==> replay(buffer, spans, payloads, order).subrange(
                spans[i].offset as int,
                #[trigger] spans[i].spec_end(),
            ) == payloads[i],
{
    replay_bytes(buffer, spans, payloads, order);
    let done = replay(buffer, spans, payloads, order);
    assert forall|i: int| 0 <= i < spans.len() implies done.subrange(
        spans[i].offset as int,
        #[trigger] spans[i].spec_end(),
    ) == payloads[i] by {
        start_of_is_monotonic(spans, i, spans.len() as int);
        let part = done.subrange(spans[i].offset as int, spans[i].spec_end());
        assert forall|t: int| 0 <= t < part.len() implies part[t] == payloads[i][t] by {
            assert(spans[i].covers(spans[i].offset + t));
            assert(order.contains(i));
        }
        assert(part =~= payloads[i]);
    }
}

/// The order in which fragments complete does not show in the image: two
/// replays that each write every fragment give the same buffer, whatever stood
/// in the buffer before.
pub proof fn reassembly_is_order_independent(
    buffer_a: Seq<u8>,
    buffer_b: Seq<u8>,
    spans: Seq<ByteSpan>,
    payloads: Seq<Seq<u8>>,
    order_a: Seq<int>,
    order_b: Seq<int>,
)
    requires
        buffer_a.len() == buffer_b.len(),
        tiles(spans, buffer_a.len() as int),
        payloads_match(spans, payloads),
        order_in_range(order_a, spans.len() as int),
        order_in_range(order_b, spans.len() as int),
        order_is_complete(order_a, spans.len() as int),
        order_is_complete(order_b, spans.len() as int),
    ensures
        replay(buffer_a, spans, payloads, order_a) == replay(buffer_b, spans, payloads, order_b),
{
    replay_bytes(buffer_a, spans, payloads, order_a);
    replay_bytes(buffer_b, spans, payloads, order_b);
    let a = replay(buffer_a, spans, payloads, order_a);
    let b = replay(buffer_b, spans, payloads, order_b);
    assert forall|k: int| 0 <= k < a.len() implies a[k] == b[k] by {
        let i = tiling_has_no_gap(spans, buffer_a.len() as int, k);
        assert(order_a.contains(i));
        assert(order_b.contains(i));
    }
    assert(a =~= b);
}

/// Writes to spans that have no byte in common can be swapped.
pub proof fn disjoint_writes_commute(
    buffer: Seq<u8>,
    first: ByteSpan,
    first_data: Seq<u8>,
    second: ByteSpan,
    second_data: Seq<u8>,
)
    requires
        first.disjoint(second),
        first_data.len() == first.count,
        second_data.len() == second.count,
    ensures
        write_at(write_at(buffer, first.offset as int, first_data), second.offset as int, second_data)
            == write_at(
            write_at(buffer, second.offset as int, second_data),
            first.offset as int,
            first_data,
        ),
{
    assert(write_at(
        write_at(buffer, first.offset as int, first_data),
        second.offset as int,
        second_data,
    ) =~= write_at(
        write_at(buffer, second.offset as int, second_data),
        first.offset as int,
        first_data,
    ));
}

} // verus!
