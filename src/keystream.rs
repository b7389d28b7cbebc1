//! The keystream: a key buffer re-read cyclically, the next position being
//! chosen by an index-advance policy.
use vstd::prelude::*;

verus! {

/// The rule that picks the next key position.
#[derive(Clone, Copy, Debug, PartialEq, Eq, Structural)]
pub enum Policy {
    /// `(i + 1) mod L`.
    Sequential,
    /// Steps of two with a parity-dependent wraparound.
    Perturbed,
}

/// The sequential policy: `(i + 1) mod len`.
pub open spec fn advance_sequential(i: nat, len: nat) -> nat {
    if i + 1 < len {
        i + 1
    } else {
        0
    }
}

/// The perturbed policy: step by two; when that would leave the buffer,
/// go back to 1 or 0 depending on the parity of the length and on whether
/// the step lands exactly on the end.
pub open spec fn advance_perturbed(i: nat, len: nat) -> nat {
    if i + 2 < len {
        i + 2
    } else if len % 2 == 0 {
        if i + 2 == len { 1 } else { 0 }
    } else {
        if i + 2 == len { 0 } else { 1 }
    }
}

pub open spec fn advance(policy: Policy, i: nat, len: nat) -> nat {
    match policy {
        Policy::Sequential => advance_sequential(i, len),
        Policy::Perturbed => advance_perturbed(i, len),
    }
}

/// The key position used for the `n`-th byte of the stream.
pub open spec fn stream_index(policy: Policy, n: nat, len: nat) -> nat
    decreases n,
{
    if n == 0 {
        0
    } else {
        advance(policy, stream_index(policy, (n - 1) as nat, len), len)
    }
}

/// Next key position under the sequential policy.
pub fn next_index_sequential(index: usize, count: usize) -> (r: usize)
    requires
        index < count,
    ensures
        r == advance_sequential(index as nat, count as nat),
        r < count,
{
    if index < count - 1 {
        index + 1
    } else {
        0
    }
}

/// Next key position under the perturbed policy.
pub fn next_index(index: usize, count: usize) -> (r: usize)
    requires
        index < count,
        count >= 2,
    ensures
        r == advance_perturbed(index as nat, count as nat),
        r < count,
{
    if index < count - 2 {
        index + 2
    } else if count % 2 == 0 {
        if index == count - 2 {
            1
        } else {
            0
        }
    } else {
        if index == count - 2 {
            0
        } else {
            1
        }
    }
}

/// Next key position under `policy`.
pub fn next_index_with(policy: Policy, index: usize, count: usize) -> (r: usize)
    requires
        index < count,
        count >= 2,
    ensures
        r == advance(policy, index as nat, count as nat),
        r < count,
{
    match policy {
        Policy::Sequential => next_index_sequential(index, count),
        Policy::Perturbed => next_index(index, count),
    }
}

/// Every policy keeps a position inside a buffer of two or more bytes.
pub proof fn lemma_stream_index_in_range(policy: Policy, n: nat, len: nat)
    requires
        len >= 2,
    ensures
        stream_index(policy, n, len) < len,
    decreases n,
{
    if n > 0 {
        lemma_stream_index_in_range(policy, (n - 1) as nat, len);
    }
}

/// Number of even positions in `[0, len)`.
pub open spec fn even_count(len: nat) -> nat {
    if len % 2 == 0 { len / 2 } else { (len + 1) / 2 }
}

/// Where the perturbed policy stands after `n` steps, for `n <= len`: first
/// the even positions in increasing order, then the odd ones, then 0.
pub open spec fn perturbed_position(n: nat, len: nat) -> nat {
    let h = even_count(len);
    if n < h {
        2 * n
    } else if n < len {
        (2 * (n - h) + 1) as nat
    } else {
        0
    }
}

/// The step at which the perturbed policy reaches position `j`.
pub open spec fn perturbed_visit_step(j: nat, len: nat) -> nat {
    if j % 2 == 0 {
        j / 2
    } else {
        (even_count(len) + (j - 1) / 2) as nat
    }
}

proof fn lemma_perturbed_closed_form(n: nat, len: nat)
    requires
        len >= 2,
        n <= len,
    ensures
        stream_index(Policy::Perturbed, n, len) == perturbed_position(n, len),
    decreases n,
{
    if n > 0 {
        lemma_perturbed_closed_form((n - 1) as nat, len);
    }
}

/// Started at 0 on a buffer of `len >= 2` bytes, the perturbed policy visits
/// every position of `[0, len)` exactly once in its first `len` steps (position
/// `j` at step `perturbed_visit_step(j, len)`), and then comes back to 0.
pub proof fn lemma_perturbed_visits_all(len: nat)
    requires
        len >= 2,
    ensures
        stream_index(Policy::Perturbed, len, len) == 0,
        forall|n: nat| n < len ==> #[trigger] stream_index(Policy::Perturbed, n, len) < len,
        forall|n: nat, m: nat|
            n < m < len ==> #[trigger] stream_index(Policy::Perturbed, n, len)
                != #[trigger] stream_index(Policy::Perturbed, m, len),
        forall|j: nat|
            j < len ==> #[trigger] perturbed_visit_step(j, len) < len && stream_index(
                Policy::Perturbed,
                perturbed_visit_step(j, len),
                len,
            ) == j,
{
    lemma_perturbed_closed_form(len, len);
    assert forall|n: nat| n < len implies #[trigger] stream_index(Policy::Perturbed, n, len) < len by {
        lemma_perturbed_closed_form(n, len);
    }
    assert forall|n: nat, m: nat|
        n < m < len implies #[trigger] stream_index(Policy::Perturbed, n, len)
            != #[trigger] stream_index(Policy::Perturbed, m, len) by {
        lemma_perturbed_closed_form(n, len);
        lemma_perturbed_closed_form(m, len);
    }
    assert forall|j: nat| j < len implies #[trigger] perturbed_visit_step(j, len) < len
        && stream_index(Policy::Perturbed, perturbed_visit_step(j, len), len) == j by {
        lemma_perturbed_closed_form(perturbed_visit_step(j, len), len);
    }
}

} // verus!
