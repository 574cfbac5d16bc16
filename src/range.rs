use vstd::prelude::*;
use crate::digits::{all_digits, decimal, digits_value, parse_decimal, push_decimal};

verus! {

/// The ASCII code of `-`.
pub const DASH: u8 = 45;

/// How many bytes one video response carries: 2 MiB.
pub const CHUNK: u64 = 2097152;

/// The unit that opens a `Range` value: `bytes=`.
pub open spec fn unit_prefix() -> Seq<u8> {
    seq![98u8, 121u8, 116u8, 101u8, 115u8, 61u8] /* bytes= */
}

/// A `Range` value without its leading `bytes=`, where it has one.
pub open spec fn strip_unit(h: Seq<u8>) -> Seq<u8> {
    if h.len() >= 6 && h.subrange(0, 6) == unit_prefix() {
        h.subrange(6, h.len() as int)
    } else {
        h
    }
}

/// Where the first `-` of `s` stands, or the length of `s` where it has none.
pub open spec fn first_dash(s: Seq<u8>) -> nat
    decreases s.len(),
{
    if s.len() == 0 {
        0
    } else if s[0] == DASH {
        0
    } else {
        1 + first_dash(s.drop_first())
    }
}

/// The start offset that a `Range` value asks for: the number before its
/// first `-`. The end after the `-` is not read. A start that is not a
/// decimal number within `u64` counts as 0.
pub open spec fn start_in(h: Seq<u8>) -> u64 {
    let spec_part = strip_unit(h);
    let first = spec_part.subrange(0, first_dash(spec_part) as int);
    if first.len() > 0 && all_digits(first) && digits_value(first) <= u64::MAX {
        digits_value(first) as u64
    } else {
        0
    }
}

/// The start offset of a request: 0 without a `Range` header.
pub open spec fn start_of(header: Option<Seq<u8>>) -> u64 {
    match header {
        Some(h) => start_in(h),
        None => 0,
    }
}

/// The first `-` of a string is where the bytes before it are none of `-`.
pub proof fn lemma_first_dash(s: Seq<u8>, i: int)
    requires
        0 <= i <= s.len(),
        forall|k: int| 0 <= k < i ==> #[trigger] s[k] != DASH,
        i == s.len() || s[i] == DASH,
    ensures
        first_dash(s) == i,
    decreases i,
{
    if i > 0 {
        assert forall|k: int| 0 <= k < i - 1 implies #[trigger] s.drop_first()[k] != DASH by {
            assert(s.drop_first()[k] == s[k + 1]);
        }
        lemma_first_dash(s.drop_first(), i - 1);
    }
}

fn dash_position(s: &[u8]) -> (r: usize)
    ensures
        r == first_dash(s@),
        r <= s@.len(),
{
    let mut i: usize = 0;
    while i < s.len() && s[i] != DASH
        invariant
            0 <= i <= s@.len(),
            forall|k: int| 0 <= k < i ==> #[trigger] s@[k] != DASH,
        decreases s@.len() - i,
    {
        i = i + 1;
    }
    proof {
        lemma_first_dash(s@, i as int);
    }
    i
}

fn has_unit(h: &[u8]) -> (r: bool)
    ensures
        r == (h@.len() >= 6 && h@.subrange(0, 6) == unit_prefix()),
{
    let r = h.len() >= 6 && h[0] == 98u8 && h[1] == 121u8 && h[2] == 116u8 && h[3] == 101u8
        && h[4] == 115u8 && h[5] == 61u8;
    proof {
        if h@.len() >= 6 {
            if r {
                assert(h@.subrange(0, 6) =~= unit_prefix());
            } else {
                if h@.subrange(0, 6) == unit_prefix() {
                    assert(h@[0] == h@.subrange(0, 6)[0]);
                    assert(h@[1] == h@.subrange(0, 6)[1]);
                    assert(h@[2] == h@.subrange(0, 6)[2]);
                    assert(h@[3] == h@.subrange(0, 6)[3]);
                    assert(h@[4] == h@.subrange(0, 6)[4]);
                    assert(h@[5] == h@.subrange(0, 6)[5]);
                }
            }
        }
    }
    r
}

/// The start offset that a request's `Range` header asks for (0 where there
/// is none, or where its start is not a decimal number within `u64`).
pub fn range_start(header: Option<&[u8]>) -> (r: u64)
    ensures
        r == start_of(
            match header {
                Some(h) => Some(h@),
                None => None,
            },
        ),
{
    match header {
        None => 0,
        Some(h) => {
            let rest: &[u8] = if has_unit(h) {
                &h[6..h.len()]
            } else {
                h
            };
            assert(rest@ == strip_unit(h@));
            let end = dash_position(rest);
            let first: &[u8] = &rest[0..end];
            match parse_decimal(first) {
                Some(v) => v,
                None => 0,
            }
        },
    }
}

/// The value of a `Content-Range` header: `bytes <first>-<last>/<size>`.
#[derive(Clone, Copy, Debug, PartialEq, Eq, Structural)]
pub struct ContentRange {
    pub first: u64,
    pub last: u64,
    pub size: u64,
}

/// The text of a `Content-Range` value.
pub open spec fn content_range_text(c: ContentRange) -> Seq<u8> {
    unit_prefix().subrange(0, 5).push(32u8) + decimal(c.first as nat) + seq![DASH] + decimal(
        c.last as nat,
    ) + seq![47u8] + decimal(c.size as nat)
}

impl ContentRange {
    /// Spells this range as a header value, such as `bytes 0-99/100`.
    pub fn render(&self) -> (r: Vec<u8>)
        ensures
            r@ == content_range_text(*self),
    {
        let mut out: Vec<u8> = Vec::new();
        out.push(98u8);
        out.push(121u8);
        out.push(116u8);
        out.push(101u8);
        out.push(115u8);
        out.push(32u8);
        push_decimal(&mut out, self.first);
        out.push(DASH);
        push_decimal(&mut out, self.last);
        out.push(47u8);
        push_decimal(&mut out, self.size);
        assert(out@ =~= content_range_text(*self));
        out
    }
}

} // verus!
