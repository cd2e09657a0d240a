//! Facts about the first and last place of a byte in a sequence, which the
//! node lookups are built on.
use vstd::prelude::*;

verus! {

/// The first place of `b` after pushing `x` onto `s`.
pub proof fn lemma_first_push(s: Seq<u8>, x: u8, b: u8)
    ensures
        s.push(x).index_of_first(b) == (if s.contains(b) {
            s.index_of_first(b)
        } else if x == b {
            Some(s.len() as int)
        } else {
            None::<int>
        }),
{
    let t = s.push(x);
    s.index_of_first_ensures(b);
    t.index_of_first_ensures(b);
    if s.contains(b) {
        let i = s.index_of_first(b).unwrap();
        assert(t[i] == b);
        assert(t.contains(b));
        let k = t.index_of_first(b).unwrap();
        if k < i {
            assert(s[k] == b);
        }
        if i < k {
            assert(t[i] == b);
        }
    } else if x == b {
        assert(t[s.len() as int] == b);
        let k = t.index_of_first(b).unwrap();
        if k < s.len() {
            assert(s[k] == b);
            assert(s.contains(b));
        }
    } else {
        if t.contains(b) {
            let k = t.index_of_first(b).unwrap();
            if k < s.len() {
                assert(s[k] == b);
            }
        }
    }
}

/// The first place of `b` in `seq![x] + s`.
pub proof fn lemma_first_prepend(x: u8, s: Seq<u8>, b: u8)
    ensures
        (seq![x] + s).index_of_first(b) == (if x == b {
            Some(0int)
        } else {
            match s.index_of_first(b) {
                Some(i) => Some(i + 1),
                None => None::<int>,
            }
        }),
{
    let t = seq![x] + s;
    s.index_of_first_ensures(b);
    t.index_of_first_ensures(b);
    assert(t[0] == x);
    assert forall|j: int| 0 <= j < s.len() implies t[j + 1] == s[j] by {}
    if x == b {
        assert(t.contains(b));
    } else if s.contains(b) {
        let i = s.index_of_first(b).unwrap();
        assert(t[i + 1] == b);
        assert(t.contains(b));
        let k = t.index_of_first(b).unwrap();
        assert(k != 0);
        if k < i + 1 {
            assert(s[k - 1] == b);
        }
        if i + 1 < k {
            assert(t[i + 1] == b);
        }
    } else {
        if t.contains(b) {
            let k = t.index_of_first(b).unwrap();
            assert(k != 0);
            assert(s[k - 1] == b);
        }
    }
}

/// The last place of `b` after pushing `x` onto `s`.
pub proof fn lemma_last_push(s: Seq<u8>, x: u8, b: u8)
    ensures
        s.push(x).index_of_last(b) == (if x == b {
            Some(s.len() as int)
        } else {
            s.index_of_last(b)
        }),
{
    let t = s.push(x);
    s.index_of_last_ensures(b);
    t.index_of_last_ensures(b);
    if x == b {
        assert(t[s.len() as int] == b);
        assert(t.contains(b));
    } else if s.contains(b) {
        let i = s.index_of_last(b).unwrap();
        assert(t[i] == b);
        assert(t.contains(b));
        let k = t.index_of_last(b).unwrap();
        if k < i {
            assert(t[i] == b);
        }
        if i < k {
            assert(s[k] == b);
        }
    } else {
        if t.contains(b) {
            let k = t.index_of_last(b).unwrap();
            assert(s[k] == b);
        }
    }
}

/// In a sequence without repeats, the first and the last place of a byte agree.
pub proof fn lemma_first_is_last(s: Seq<u8>, b: u8)
    requires
        s.no_duplicates(),
    ensures
        s.index_of_first(b) == s.index_of_last(b),
{
    s.index_of_first_ensures(b);
    s.index_of_last_ensures(b);
}

/// Pushing a byte that is not yet there keeps a sequence free of repeats.
pub proof fn lemma_push_no_duplicates(s: Seq<u8>, x: u8)
    requires
        s.no_duplicates(),
        !s.contains(x),
    ensures
        s.push(x).no_duplicates(),
{
    let t = s.push(x);
    assert forall|i: int, j: int| 0 <= i < t.len() && 0 <= j < t.len() && i != j implies t[i]
        != t[j] by {
        if i < s.len() && j < s.len() {
        } else if i == s.len() {
            assert(s[j] == t[j]);
        } else {
            assert(s[i] == t[i]);
        }
    }
}

} // verus!

verus! {

/// `i` is the first place of `b` in `s`.
pub proof fn lemma_first_at(s: Seq<u8>, b: u8, i: int)
    requires
        0 <= i < s.len(),
        s[i] == b,
        forall|j: int| 0 <= j < i ==> s[j] != b,
    ensures
        s.index_of_first(b) == Some(i),
{
    s.index_of_first_ensures(b);
    assert(s.contains(b));
    let k = s.index_of_first(b).unwrap();
    if k < i {
        assert(s[k] != b);
    }
    if i < k {
        assert(s[i] != b);
    }
}

/// A byte that does not occur has no first place.
pub proof fn lemma_first_none(s: Seq<u8>, b: u8)
    requires
        forall|j: int| 0 <= j < s.len() ==> s[j] != b,
    ensures
        s.index_of_first(b) is None,
{
    s.index_of_first_ensures(b);
    if s.contains(b) {
        let k = s.index_of_first(b).unwrap();
        assert(s[k] == b);
    }
}

/// Putting a byte that does not occur in front keeps a sequence free of repeats.
pub proof fn lemma_prepend_no_duplicates(x: u8, s: Seq<u8>)
    requires
        s.no_duplicates(),
        !s.contains(x),
    ensures
        (seq![x] + s).no_duplicates(),
{
    let t = seq![x] + s;
    assert forall|i: int, j: int| 0 <= i < t.len() && 0 <= j < t.len() && i != j implies t[i]
        != t[j] by {
        if i > 0 && j > 0 {
            assert(t[i] == s[i - 1]);
            assert(t[j] == s[j - 1]);
        } else if i == 0 {
            assert(t[j] == s[j - 1]);
        } else {
            assert(t[i] == s[i - 1]);
        }
    }
}

} // verus!
