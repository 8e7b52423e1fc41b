use vstd::prelude::*;
use crate::raw::views;

verus! {

/// Index of the first `,` in `s` at or after `i`, or `s.len()` when none follows.
pub open spec fn next_comma(s: Seq<char>, i: int) -> int
    decreases s.len() - i,
{
    if i >= s.len() {
        s.len() as int
    } else if s[i] == ',' {
        i
    } else {
        next_comma(s, i + 1)
    }
}

proof fn lemma_next_comma(s: Seq<char>, i: int, j: int)
    requires
        0 <= i <= j <= s.len(),
        forall|k: int| i <= k < j ==> s[k] != ',',
    ensures
        next_comma(s, i) == next_comma(s, j),
        i <= next_comma(s, i),
    decreases j - i,
{
    if i < j {
        lemma_next_comma(s, i + 1, j);
    } else {
        lemma_next_comma_bounds(s, i);
    }
}

proof fn lemma_next_comma_bounds(s: Seq<char>, i: int)
    requires
        0 <= i <= s.len(),
    ensures
        i <= next_comma(s, i) <= s.len(),
    decreases s.len() - i,
{
    if i < s.len() && s[i] != ',' {
        lemma_next_comma_bounds(s, i + 1);
    }
}

/// The comma-separated items of `s` from `i` on; a comma at the very end
/// ends the last item and opens no new one.
pub open spec fn items_from(s: Seq<char>, i: int) -> Seq<Seq<char>>
    decreases s.len() - i,
    when 0 <= i
    via items_from_decreases
{
    if i >= s.len() {
        Seq::empty()
    } else {
        let c = next_comma(s, i);
        if c >= s.len() {
            seq![s.subrange(i, s.len() as int)]
        } else {
            seq![s.subrange(i, c)] + items_from(s, c + 1)
        }
    }
}

#[via_fn]
proof fn items_from_decreases(s: Seq<char>, i: int) {
    if i < s.len() {
        lemma_next_comma_bounds(s, i);
    }
}

/// A list given in one environment variable, items separated by commas.
#[derive(Debug, PartialEq, Eq)]
pub struct EnvList(pub Vec<String>);

impl EnvList {
    /// Splits `s` at its commas; a trailing comma adds no empty item.
    pub fn from_str(s: &str) -> (r: EnvList)
        ensures
            views(r.0@) == items_from(s@, 0),
    {
        let ghost v = s@;
        let len = s.unicode_len();
        let mut out: Vec<String> = Vec::new();
        let mut cur = String::new();
        let mut start: usize = 0;
        let mut k: usize = 0;
        while k < len
            invariant
                v == s@,
                len == v.len(),
                start <= k <= len,
                cur@ == v.subrange(start as int, k as int),
                forall|j: int| start <= j < k ==> v[j] != ',',
                items_from(v, 0) == views(out@) + items_from(v, start as int),
            decreases len - k,
        {
            let c = s.get_char(k);
            if c == ',' {
                proof {
                    lemma_next_comma(v, start as int, k as int);
                    assert(items_from(v, start as int) == seq![cur@] + items_from(v, k + 1));
                    assert(views(out@.push(cur)) =~= views(out@).push(cur@));
                    assert(views(out@) + items_from(v, start as int) =~= views(out@).push(cur@)
                        + items_from(v, k + 1));
                }
                out.push(cur);
                cur = String::new();
                start = k + 1;
                proof {
                    assert(cur@ =~= v.subrange(start as int, (k + 1) as int));
                }
            } else {
                cur.push(c);
                proof {
                    assert(cur@ =~= v.subrange(start as int, (k + 1) as int));
                }
            }
            k = k + 1;
        }
        if start < len {
            proof {
                lemma_next_comma(v, start as int, len as int);
                assert(items_from(v, start as int) == seq![cur@]);
                assert(views(out@.push(cur)) =~= views(out@) + seq![cur@]);
            }
            out.push(cur);
        } else {
            proof {
                assert(views(out@) + items_from(v, start as int) =~= views(out@));
            }
        }
        EnvList(out)
    }

    /// The list of the items of `v`.
    pub fn from(v: Vec<String>) -> (r: EnvList)
        ensures
            r.0@ == v@,
    {
        EnvList(v)
    }

    /// The items.
    pub fn items(&self) -> (r: &Vec<String>)
        ensures
            r@ == self.0@,
    {
        &self.0
    }
}

} // verus!
