//! Whitespace-delimited words of a character sequence: splitting,
//! last-word comparison (the completion test), and the count of typed
//! words that match the target word at the same ordinal position (the
//! numerator of words-per-minute).

use vstd::prelude::*;
use crate::text::first_space_at_or_after;
use crate::text::lemma_first_space_found;

verus! {

/// The maximal space-free runs of `s` at or after `i`, in order.
pub open spec fn words_from(s: Seq<char>, i: int) -> Seq<Seq<char>>
    decreases s.len() - i,
    via words_from_dec
{
    if i < 0 || i >= s.len() {
        Seq::empty()
    } else if s[i] == ' ' {
        words_from(s, i + 1)
    } else {
        seq![s.subrange(i, first_space_at_or_after(s, i))] + words_from(
            s,
            first_space_at_or_after(s, i),
        )
    }
}

#[via_fn]
proof fn words_from_dec(s: Seq<char>, i: int) {
    if 0 <= i < s.len() && s[i] != ' ' {
        lemma_first_space_found(s, i);
    }
}

/// The words of the whole sequence.
pub open spec fn words_of(s: Seq<char>) -> Seq<Seq<char>> {
    words_from(s, 0)
}

/// Both sequences hold at least one word and their last words are equal.
pub open spec fn last_words_match_spec(t: Seq<char>, c: Seq<char>) -> bool {
    words_of(t).len() > 0 && words_of(c).len() > 0 && words_of(t).last() == words_of(c).last()
}

/// How many positions at or after `i` hold the same word in both lists.
pub open spec fn match_count_from(t: Seq<Seq<char>>, c: Seq<Seq<char>>, i: int) -> int
    decreases c.len() - i,
{
    if i < 0 || i >= t.len() || i >= c.len() {
        0
    } else {
        (if t[i] == c[i] {
            1int
        } else {
            0int
        }) + match_count_from(t, c, i + 1)
    }
}

/// How many positions hold the same word in both lists.
pub open spec fn match_count(t: Seq<Seq<char>>, c: Seq<Seq<char>>) -> int {
    match_count_from(t, c, 0)
}

/// How many characters of `s` are spaces.
pub open spec fn space_count(s: Seq<char>) -> int
    decreases s.len(),
{
    if s.len() == 0 {
        0
    } else {
        (if s.last() == ' ' {
            1int
        } else {
            0int
        }) + space_count(s.drop_last())
    }
}

/// Counts the space characters of `text`.
pub fn count_spaces(text: &Vec<char>) -> (n: usize)
    ensures
        n == space_count(text@),
        n <= text@.len(),
{
    let mut n: usize = 0;
    let mut i: usize = 0;
    while i < text.len()
        invariant
            0 <= i <= text@.len(),
            n <= i,
            n == space_count(text@.take(i as int)),
        decreases text.len() - i,
    {
        assert(text@.take(i + 1).drop_last() =~= text@.take(i as int));
        assert(text@.take(i + 1).last() == text@[i as int]);
        if text[i] == ' ' {
            n = n + 1;
        }
        i = i + 1;
    }
    proof {
        assert(text@.take(text@.len() as int) =~= text@);
    }
    n
}

/// Element-wise equality of two character vectors.
fn chars_eq(a: &Vec<char>, b: &Vec<char>) -> (r: bool)
    ensures
        r == (a@ == b@),
{
    if a.len() != b.len() {
        return false;
    }
    let mut i: usize = 0;
    while i < a.len()
        invariant
            0 <= i <= a@.len(),
            a@.len() == b@.len(),
            forall|j: int| 0 <= j < i ==> a@[j] == b@[j],
        decreases a.len() - i,
    {
        if a[i] != b[i] {
            return false;
        }
        i = i + 1;
    }
    proof {
        assert(a@ =~= b@);
    }
    true
}

/// Splits `text` into its whitespace-delimited words.
pub fn split_words(text: &Vec<char>) -> (r: Vec<Vec<char>>)
    ensures
        r@.len() == words_of(text@).len(),
        forall|i: int| 0 <= i < r@.len() ==> r@[i]@ == words_of(text@)[i],
{
    let mut out: Vec<Vec<char>> = Vec::new();
    let mut i: usize = 0;
    while i < text.len()
        invariant
            0 <= i <= text@.len(),
            words_of(text@) =~= Seq::new(out@.len() as nat, |k: int| out@[k]@) + words_from(
                text@,
                i as int,
            ),
        decreases text.len() - i,
    {
        if text[i] == ' ' {
            i = i + 1;
        } else {
            proof {
                lemma_first_space_found(text@, i as int);
            }
            let nw = crate::text::get_next_whitespace(text, i);
            let e: usize = if nw > i {
                nw
            } else {
                text.len()
            };
            assert(e == first_space_at_or_after(text@, i as int));
            let mut word: Vec<char> = Vec::new();
            let mut j: usize = i;
            while j < e
                invariant
                    i <= j <= e,
                    e <= text@.len(),
                    word@ =~= text@.subrange(i as int, j as int),
                decreases e - j,
            {
                word.push(text[j]);
                assert(word@ =~= text@.subrange(i as int, j + 1));
                j = j + 1;
            }
            let ghost old_out = out@;
            out.push(word);
            proof {
                assert(Seq::new(out@.len() as nat, |k: int| out@[k]@) =~= Seq::new(
                    old_out.len() as nat,
                    |k: int| old_out[k]@,
                ).push(text@.subrange(i as int, e as int)));
            }
            i = e;
        }
    }
    proof {
        assert(Seq::new(out@.len() as nat, |k: int| out@[k]@) =~= words_of(text@));
    }
    out
}

/// Counts the typed words that equal the target word at the same
/// position.
pub fn count_matching_words(target: &Vec<char>, typed: &Vec<char>) -> (n: usize)
    ensures
        n == match_count(words_of(target@), words_of(typed@)),
{
    let tw = split_words(target);
    let cw = split_words(typed);
    let ghost t = words_of(target@);
    let ghost c = words_of(typed@);
    let mut n: usize = 0;
    let mut i: usize = 0;
    let m: usize = if tw.len() < cw.len() {
        tw.len()
    } else {
        cw.len()
    };
    while i < m
        invariant
            0 <= i <= m,
            n <= i,
            m <= tw@.len(),
            m <= cw@.len(),
            m == if t.len() < c.len() {
                t.len()
            } else {
                c.len()
            },
            tw@.len() == t.len(),
            cw@.len() == c.len(),
            forall|k: int| 0 <= k < tw@.len() ==> tw@[k]@ == t[k],
            forall|k: int| 0 <= k < cw@.len() ==> cw@[k]@ == c[k],
            match_count(t, c) == n + match_count_from(t, c, i as int),
        decreases m - i,
    {
        if chars_eq(&tw[i], &cw[i]) {
            n = n + 1;
        }
        i = i + 1;
    }
    proof {
        assert(match_count_from(t, c, i as int) == 0);
    }
    n
}

/// Whether the last words of the two sequences exist and are equal: the
/// content half of the completion test.
pub fn last_words_match(target: &Vec<char>, typed: &Vec<char>) -> (r: bool)
    ensures
        r == last_words_match_spec(target@, typed@),
{
    let tw = split_words(target);
    let cw = split_words(typed);
    if tw.len() == 0 || cw.len() == 0 {
        return false;
    }
    chars_eq(&tw[tw.len() - 1], &cw[cw.len() - 1])
}

} // verus!
