use vstd::prelude::*;
use crate::model::edit_distance;

verus! {

pub open spec fn capped(d: nat, cap: nat) -> nat {
    if d < cap {
        d
    } else {
        cap
    }
}

/// The characters of `s`, in order.
pub fn chars_of(s: &str) -> (r: Vec<char>)
    ensures
        r@ == s@,
{
    let n = s.unicode_len();
    let mut r: Vec<char> = Vec::new();
    let mut i: usize = 0;
    while i < n
        invariant
            n == s@.len(),
            i <= n,
            r@ == s@.subrange(0, i as int),
        decreases n - i,
    {
        r.push(s.get_char(i));
        i = i + 1;
        proof {
            assert(r@ =~= s@.subrange(0, i as int));
        }
    }
    proof {
        assert(r@ =~= s@);
    }
    r
}

/// Edit distance between `a` and `b`, or `cap` when the distance is `cap` or
/// more.
pub fn levenshtein(a: &Vec<char>, b: &Vec<char>, cap: usize) -> (r: usize)
    ensures
        r as nat == capped(edit_distance(a@, b@), cap as nat),
{
    let la = a.len();
    let lb = b.len();
    // prev[j] holds the capped distance between the first i characters of a
    // and the first j characters of b.
    let mut prev: Vec<usize> = Vec::new();
    let mut j: usize = 0;
    while j < lb
        invariant
            lb == b@.len(),
            j <= lb,
            prev@.len() == j,
            forall|x: int|
                0 <= x < j ==> #[trigger] prev@[x] as nat == capped(
                    edit_distance(a@.take(0), b@.take(x)),
                    cap as nat,
                ),
        decreases lb - j,
    {
        proof {
            assert(a@.take(0).len() == 0);
        }
        prev.push(if j < cap { j } else { cap });
        j = j + 1;
    }
    proof {
        assert(a@.take(0).len() == 0);
    }
    prev.push(if lb < cap { lb } else { cap });
    let mut i: usize = 0;
    while i < la
        invariant
            la == a@.len(),
            lb == b@.len(),
            i <= la,
            prev@.len() == lb + 1,
            forall|x: int|
                0 <= x <= lb ==> #[trigger] prev@[x] as nat == capped(
                    edit_distance(a@.take(i as int), b@.take(x)),
                    cap as nat,
                ),
        decreases la - i,
    {
        let mut cur: Vec<usize> = Vec::new();
        let first = i + 1;
        proof {
            assert(b@.take(0).len() == 0);
            assert(a@.take(i + 1).len() == i + 1);
        }
        cur.push(if first < cap { first } else { cap });
        let mut j: usize = 0;
        while j < lb
            invariant
                la == a@.len(),
                lb == b@.len(),
                i < la,
                j <= lb,
                prev@.len() == lb + 1,
                cur@.len() == j + 1,
                forall|x: int|
                    0 <= x <= lb ==> #[trigger] prev@[x] as nat == capped(
                        edit_distance(a@.take(i as int), b@.take(x)),
                        cap as nat,
                    ),
                forall|x: int|
                    0 <= x <= j ==> #[trigger] cur@[x] as nat == capped(
                        edit_distance(a@.take(i + 1), b@.take(x)),
                        cap as nat,
                    ),
            decreases lb - j,
        {
            let cost: usize = if a[i] == b[j] { 0 } else { 1 };
            let del = prev[j + 1];
            let ins = cur[j];
            let sub = prev[j];
            let d1 = if del < cap { del + 1 } else { cap };
            let d2 = if ins < cap { ins + 1 } else { cap };
            let d3 = if sub < cap { sub + cost } else { cap };
            let mut m = if d1 <= d2 { d1 } else { d2 };
            if d3 < m {
                m = d3;
            }
            if m > cap {
                m = cap;
            }
            proof {
                let ai = a@.take(i + 1);
                let bj = b@.take(j + 1);
                assert(ai.drop_last() =~= a@.take(i as int));
                assert(bj.drop_last() =~= b@.take(j as int));
                assert(ai.last() == a@[i as int]);
                assert(bj.last() == b@[j as int]);
                assert(ai.len() > 0 && bj.len() > 0);
            }
            cur.push(m);
            j = j + 1;
        }
        prev = cur;
        i = i + 1;
    }
    proof {
        assert(a@.take(la as int) =~= a@);
        assert(b@.take(lb as int) =~= b@);
    }
    prev[lb]
}

} // verus!
