use vstd::prelude::*;

verus! {

pub const SLASH: u8 = 47;

pub const DOT: u8 = 46;

/// The stack of components after one more component `c` is read: empty
/// components and `.` are skipped, `..` pops (and stays at the root when
/// there is nothing to pop), anything else is pushed.
pub open spec fn push_component(stack: Seq<Seq<u8>>, c: Seq<u8>) -> Seq<Seq<u8>> {
    if c.len() == 0 || c == seq![DOT] {
        stack
    } else if c == seq![DOT, DOT] {
        if stack.len() > 0 {
            stack.drop_last()
        } else {
            stack
        }
    } else {
        stack.push(c)
    }
}

/// After reading `s`: the components completed so far, and the one in progress.
pub open spec fn scan_path(s: Seq<u8>) -> (Seq<Seq<u8>>, Seq<u8>)
    decreases s.len(),
{
    if s.len() == 0 {
        (Seq::empty(), Seq::empty())
    } else {
        let (stack, cur) = scan_path(s.drop_last());
        if s.last() == SLASH {
            (push_component(stack, cur), Seq::empty())
        } else {
            (stack, cur.push(s.last()))
        }
    }
}

/// The components of `s`, split at `/`, with `.`, empty components and
/// `..` resolved; `..` never climbs above the root.
pub open spec fn normalize(s: Seq<u8>) -> Seq<Seq<u8>> {
    push_component(scan_path(s).0, scan_path(s).1)
}

fn push_component_exec(stack: &mut Vec<Vec<u8>>, c: Vec<u8>)
    ensures
        final(stack).deep_view() == push_component(old(stack).deep_view(), c@),
{
    let n = c.len();
    if n == 0 || (n == 1 && c[0] == DOT) {
        proof {
            if n == 1 {
                assert(c@ =~= seq![DOT]);
            }
        }
    } else if n == 2 && c[0] == DOT && c[1] == DOT {
        proof {
            assert(c@ =~= seq![DOT, DOT]);
        }
        if stack.len() > 0 {
            stack.pop();
            proof {
                assert(stack.deep_view() =~= old(stack).deep_view().drop_last());
            }
        }
    } else {
        proof {
            assert(c@ != seq![DOT]) by {
                if n == 1 {
                    assert(c@[0] != seq![DOT][0]);
                }
            }
            assert(c@ != seq![DOT, DOT]) by {
                if n == 2 {
                    assert(c@[0] != seq![DOT, DOT][0] || c@[1] != seq![DOT, DOT][1]);
                }
            }
        }
        let ghost cv = c@;
        stack.push(c);
        proof {
            assert(stack@[stack@.len() - 1].deep_view() =~= cv);
            assert(stack.deep_view() =~= old(stack).deep_view().push(cv));
        }
    }
}

/// Splits a path into its components, resolving `.` and `..` so that the
/// result never escapes the root it is resolved against.
pub fn normalize_path(path: &[u8]) -> (r: Vec<Vec<u8>>)
    ensures
        r.deep_view() == normalize(path@),
{
    let mut stack: Vec<Vec<u8>> = Vec::new();
    let mut cur: Vec<u8> = Vec::new();
    let mut i: usize = 0;
    proof {
        assert(path@.subrange(0, 0) =~= Seq::<u8>::empty());
        assert(stack.deep_view() =~= Seq::<Seq<u8>>::empty());
    }
    while i < path.len()
        invariant
            i <= path@.len(),
            (stack.deep_view(), cur@) == scan_path(path@.subrange(0, i as int)),
        decreases path@.len() - i,
    {
        let b = path[i];
        proof {
            assert(path@.subrange(0, i + 1).drop_last() =~= path@.subrange(0, i as int));
        }
        if b == SLASH {
            let done = cur;
            cur = Vec::new();
            push_component_exec(&mut stack, done);
            proof {
                assert(cur@ =~= Seq::<u8>::empty());
            }
        } else {
            cur.push(b);
        }
        i = i + 1;
    }
    proof {
        assert(path@.subrange(0, path@.len() as int) =~= path@);
    }
    push_component_exec(&mut stack, cur);
    stack
}

} // verus!
