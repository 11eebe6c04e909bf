//! Items waiting to be handed out, first in, first out.

use std::collections::VecDeque;
use vstd::prelude::*;

verus! {

/// The items of `items` as a queue, the first item of the vector at the front.
pub fn from_vec<T>(items: Vec<T>) -> (queue: VecDeque<T>)
    ensures
        queue@ == items@,
{
    let mut items = items;
    let ghost all = items@;
    let mut queue: VecDeque<T> = VecDeque::new();
    while items.len() > 0
        invariant
            items@.len() <= all.len(),
            items@ == all.take(items@.len() as int),
            queue@ == all.skip(items@.len() as int),
        decreases items@.len(),
    {
        let ghost k = items@.len() as int;
        let item = items.pop().unwrap();
        queue.push_front(item);
        proof {
            assert(items@ == all.take(k - 1));
            assert(queue@ == all.skip(k - 1));
        }
    }
    queue
}

} // verus!
