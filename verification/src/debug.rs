//! Rendering a list of values the way a debug log prints it.

use vstd::prelude::*;

use crate::fmt::{spec_dec, u64_to_dec};

verus! {

/// The comma-separated decimal renderings of `items`.
pub open spec fn spec_join(items: Seq<u64>) -> Seq<char>
    decreases items.len(),
{
    if items.len() == 0 {
        Seq::empty()
    } else if items.len() == 1 {
        spec_dec(items[0] as nat)
    } else {
        spec_join(items.drop_last()) + ", "@ + spec_dec(items.last() as nat)
    }
}

/// `items` rendered as a bracketed list.
pub open spec fn spec_debug_list(items: Seq<u64>) -> Seq<char> {
    "["@ + spec_join(items) + "]"@
}

/// A list of values held for display.
pub struct DebugIter {
    items: Vec<u64>,
}

impl DebugIter {
    /// The values, in order.
    pub closed spec fn view(&self) -> Seq<u64> {
        self.items@
    }

    /// Hold `items` for display.
    pub fn new(items: Vec<u64>) -> (r: DebugIter)
        ensures
            r@ == items@,
    {
        DebugIter { items }
    }

    /// Render the values as `[a, b, c]`.
    pub fn debug_string(&self) -> (r: String)
        ensures
            r@ == spec_debug_list(self@),
    {
        let mut s = String::from_str("[");
        let mut i: usize = 0;
        while i < self.items.len()
            invariant
                i <= self.items@.len(),
                s@ == "["@ + spec_join(self.items@.take(i as int)),
            decreases self.items@.len() - i,
        {
            if i > 0 {
                s.append(", ");
            }
            let d = u64_to_dec(self.items[i]);
            s.append(d.as_str());
            proof {
                let pre = self.items@.take(i as int);
                let cur = self.items@.take(i + 1);
                assert(cur.drop_last() =~= pre);
                assert(cur.last() == self.items@[i as int]);
                if i == 0 {
                    assert(spec_join(cur) == spec_dec(self.items@[0] as nat));
                    assert(s@ =~= "["@ + spec_join(cur));
                } else {
                    assert(spec_join(cur) == spec_join(pre) + ", "@ + spec_dec(
                        self.items@[i as int] as nat,
                    ));
                    assert(s@ =~= "["@ + spec_join(cur));
                }
            }
            i += 1;
        }
        s.append("]");
        proof {
            assert(self.items@.take(self.items@.len() as int) =~= self.items@);
            assert(s@ =~= spec_debug_list(self@));
        }
        s
    }
}

} // verus!
