//! Sequences.

use vstd::prelude::*;

verus! {

/// The last `count` items of `s`, or all of them.
pub open spec fn newest<T>(s: Seq<T>, count: nat) -> Seq<T> {
    if s.len() > count {
        s.skip(s.len() - count)
    } else {
        s
    }
}

/// `a` is what remains of `b` when some items are left out: every item of `a` is one
/// of `b`, in the same order, and none is used twice.
pub open spec fn drawn_from<T>(a: Seq<T>, b: Seq<T>) -> bool
    decreases b.len(),
{
    if a.len() == 0 {
        true
    } else if b.len() == 0 {
        false
    } else {
        (a[0] == b[0] && drawn_from(a.skip(1), b.skip(1))) || drawn_from(a, b.skip(1))
    }
}

/// Everything remains if nothing is left out.
pub proof fn drawn_from_itself<T>(a: Seq<T>)
    ensures
        drawn_from(a, a),
    decreases a.len(),
{
    if a.len() > 0 {
        drawn_from_itself(a.skip(1));
    }
}

/// What is left out may stand in front.
pub proof fn drawn_from_behind<T>(a: Seq<T>, before: Seq<T>, b: Seq<T>)
    requires
        drawn_from(a, b),
    ensures
        drawn_from(a, before + b),
    decreases before.len(),
{
    if before.len() > 0 {
        drawn_from_behind(a, before.skip(1), b);
        assert((before + b).skip(1) =~= before.skip(1) + b);
    } else {
        assert(before + b =~= b);
    }
}

/// Leaving items out of two parts leaves them out of the whole.
pub proof fn drawn_from_parts<T>(a: Seq<T>, b: Seq<T>, c: Seq<T>, d: Seq<T>)
    requires
        drawn_from(a, b),
        drawn_from(c, d),
    ensures
        drawn_from(a + c, b + d),
    decreases b.len(),
{
    if a.len() == 0 {
        assert(a + c =~= c);
        drawn_from_behind(c, b, d);
    } else {
        assert((b + d).skip(1) =~= b.skip(1) + d);
        if a[0] == b[0] && drawn_from(a.skip(1), b.skip(1)) {
            drawn_from_parts(a.skip(1), b.skip(1), c, d);
            assert((a + c).skip(1) =~= a.skip(1) + c);
        } else {
            drawn_from_parts(a, b.skip(1), c, d);
        }
    }
}

/// Leaving items out, and then more of them, leaves items out.
pub proof fn drawn_from_drawn<T>(a: Seq<T>, b: Seq<T>, c: Seq<T>)
    requires
        drawn_from(a, b),
        drawn_from(b, c),
    ensures
        drawn_from(a, c),
    decreases c.len(),
{
    if a.len() > 0 {
        if b[0] == c[0] && drawn_from(b.skip(1), c.skip(1)) {
            if a[0] == b[0] && drawn_from(a.skip(1), b.skip(1)) {
                drawn_from_drawn(a.skip(1), b.skip(1), c.skip(1));
            } else {
                drawn_from_drawn(a, b.skip(1), c.skip(1));
            }
        } else {
            drawn_from_drawn(a, b, c.skip(1));
        }
    }
}

/// The newest items remain when the older ones are left out.
pub proof fn newest_is_drawn<T>(s: Seq<T>, count: nat)
    ensures
        drawn_from(newest(s, count), s),
{
    drawn_from_itself(newest(s, count));
    if s.len() > count {
        let older = s.take(s.len() - count);
        drawn_from_behind(newest(s, count), older, newest(s, count));
        assert(older + newest(s, count) =~= s);
    }
}

}
