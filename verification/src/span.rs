//! The contiguous range of registers that one read transaction asks for.

use vstd::prelude::*;
use crate::registers::{addresses_of, ConfigRegister};

verus! {

/// `address` occurs in `addresses` and none of them is smaller.
pub open spec fn is_lowest(addresses: Seq<u16>, address: u16) -> bool {
    &&& addresses.contains(address)
    &&& forall|i: int| 0 <= i < addresses.len() ==> address <= #[trigger] addresses[i]
}

/// `address` occurs in `addresses` and none of them is larger.
pub open spec fn is_highest(addresses: Seq<u16>, address: u16) -> bool {
    &&& addresses.contains(address)
    &&& forall|i: int| 0 <= i < addresses.len() ==> #[trigger] addresses[i] <= address
}

/// The number of registers to read so that every value between `start` and
/// `end` arrives with both of its words.
pub open spec fn span_quantity(start: u16, end: u16) -> int {
    end - start + 2
}

/// Both words of the value at `address` lie in the `quantity` registers that
/// begin at `start`.
pub open spec fn span_holds(start: u16, quantity: int, address: u16) -> bool {
    start <= address && address + 1 < start + quantity
}

/// The lowest and the highest configured address, or `None` when nothing is
/// configured.
pub fn address_bounds(registers: &Vec<ConfigRegister>) -> (bounds: Option<(u16, u16)>)
    ensures
        if registers@.len() == 0 {
            bounds is None
        } else {
            &&& bounds matches Some((start, end))
            &&& is_lowest(addresses_of(registers@), start)
            &&& is_highest(addresses_of(registers@), end)
        },
{
    if registers.len() == 0 {
        return None;
    }
    let ghost addresses = addresses_of(registers@);
    let mut start: u16 = registers[0].address;
    let mut end: u16 = registers[0].address;
    let ghost mut at_start: int = 0;
    let ghost mut at_end: int = 0;
    let mut i: usize = 1;
    while i < registers.len()
        invariant
            1 <= i <= registers.len(),
            addresses == addresses_of(registers@),
            0 <= at_start < i && addresses[at_start] == start,
            0 <= at_end < i && addresses[at_end] == end,
            forall|j: int| 0 <= j < i ==> start <= #[trigger] addresses[j] <= end,
        decreases registers.len() - i,
    {
        let address: u16 = registers[i].address;
        if address < start {
            start = address;
            proof {
                at_start = i as int;
            }
        }
        if address > end {
            end = address;
            proof {
                at_end = i as int;
            }
        }
        i += 1;
    }
    Some((start, end))
}

/// The span from the lowest to the highest address holds both words of every
/// configured value, and it begins exactly at the lowest address.
pub proof fn lemma_span_holds_every_value(addresses: Seq<u16>, start: u16, end: u16, i: int)
    requires
        is_lowest(addresses, start),
        is_highest(addresses, end),
        0 <= i < addresses.len(),
    ensures
        span_holds(start, span_quantity(start, end), addresses[i]),
        start <= end,
        2 <= span_quantity(start, end) <= 0x1_0001,
{
}

/// No shorter range of registers holds every value, wherever it begins: one
/// that does reaches from the lowest address, or from before it, to the
/// second word of the value at the highest address.
pub proof fn lemma_span_is_minimal(
    addresses: Seq<u16>,
    start: u16,
    end: u16,
    other_start: u16,
    other_quantity: int,
)
    requires
        is_lowest(addresses, start),
        is_highest(addresses, end),
        forall|i: int|
            0 <= i < addresses.len() ==> span_holds(
                other_start,
                other_quantity,
                #[trigger] addresses[i],
            ),
    ensures
        other_start <= start,
        span_quantity(start, end) <= other_quantity,
{
    let low = choose|k: int| 0 <= k < addresses.len() && addresses[k] == start;
    let high = choose|k: int| 0 <= k < addresses.len() && addresses[k] == end;
    assert(span_holds(other_start, other_quantity, addresses[low]));
    assert(span_holds(other_start, other_quantity, addresses[high]));
}

/// When every configured address is the same, the span is the two words of
/// that one value.
pub proof fn lemma_span_of_one_address(addresses: Seq<u16>, start: u16, end: u16)
    requires
        is_lowest(addresses, start),
        is_highest(addresses, end),
        forall|i: int, j: int|
            0 <= i < addresses.len() && 0 <= j < addresses.len() ==> addresses[i] == addresses[j],
    ensures
        start == end,
        span_quantity(start, end) == 2,
{
    let i = choose|i: int| 0 <= i < addresses.len() && addresses[i] == start;
    let j = choose|j: int| 0 <= j < addresses.len() && addresses[j] == end;
    assert(addresses[i] == addresses[j]);
}

} // verus!
