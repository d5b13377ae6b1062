use vstd::prelude::*;

verus! {

/// A cursor over a list of `len` elements is either absent or names an element.
pub open spec fn cursor_valid(cursor: Option<usize>, len: nat) -> bool {
    match cursor {
        None => true,
        Some(i) => i < len,
    }
}

/// One forward step: absent -> first, last -> absent, otherwise the next one.
pub open spec fn advance_spec(cursor: Option<usize>, len: nat) -> Option<usize> {
    if len == 0 {
        None
    } else {
        match cursor {
            None => Some(0),
            Some(i) => if i + 1 >= len {
                None
            } else {
                Some((i + 1) as usize)
            },
        }
    }
}

/// One backward step: absent -> last, first -> absent, otherwise the previous one.
pub open spec fn retreat_spec(cursor: Option<usize>, len: nat) -> Option<usize> {
    if len == 0 {
        None
    } else {
        match cursor {
            None => Some((len - 1) as usize),
            Some(i) => if i == 0 {
                None
            } else {
                Some((i - 1) as usize)
            },
        }
    }
}

/// The cursor after `steps` forward steps.
pub open spec fn advance_times(cursor: Option<usize>, len: nat, steps: nat) -> Option<usize>
    decreases steps,
{
    if steps == 0 {
        cursor
    } else {
        advance_spec(advance_times(cursor, len, (steps - 1) as nat), len)
    }
}

/// Moves a cursor one step forward over a list of `len` elements, cycling
/// through the absent state after the last element.
pub fn advance_cursor(cursor: Option<usize>, len: usize) -> (r: Option<usize>)
    requires
        cursor_valid(cursor, len as nat),
    ensures
        r == advance_spec(cursor, len as nat),
        cursor_valid(r, len as nat),
{
    match cursor {
        None => if len > 0 {
            Some(0)
        } else {
            None
        },
        Some(i) => if i + 1 == len {
            None
        } else {
            Some(i + 1)
        },
    }
}

/// Moves a cursor one step backward over a list of `len` elements, cycling
/// through the absent state before the first element.
pub fn retreat_cursor(cursor: Option<usize>, len: usize) -> (r: Option<usize>)
    requires
        cursor_valid(cursor, len as nat),
    ensures
        r == retreat_spec(cursor, len as nat),
        cursor_valid(r, len as nat),
{
    match cursor {
        None => if len > 0 {
            Some(len - 1)
        } else {
            None
        },
        Some(i) => if i == 0 {
            None
        } else {
            Some(i - 1)
        },
    }
}

/// Stepping forward is closed: from the absent state, the k-th step (for
/// k from 1 to len) names element k - 1, and step len + 1 is back at the
/// absent state. Over an empty list the cursor never leaves the absent state.
pub proof fn lemma_advance_cycle(len: nat)
    requires
        len <= usize::MAX,
    ensures
        forall|k: nat| 1 <= k <= len ==> #[trigger] advance_times(None, len, k) == Some((k - 1) as usize),
        advance_times(None, len, len + 1) == None::<usize>,
        len == 0 ==> forall|k: nat| #[trigger] advance_times(None, len, k) == None::<usize>,
{
    assert forall|k: nat| 1 <= k <= len implies #[trigger] advance_times(None, len, k) == Some((k - 1) as usize) by {
        lemma_advance_prefix(len, k);
    }
    if len > 0 {
        lemma_advance_prefix(len, len);
    }
    assert forall|k: nat| len == 0 implies #[trigger] advance_times(None, len, k) == None::<usize> by {
        lemma_advance_empty(k);
    }
}

proof fn lemma_advance_prefix(len: nat, k: nat)
    requires
        1 <= k <= len,
        len <= usize::MAX,
    ensures
        advance_times(None, len, k) == Some((k - 1) as usize),
    decreases k,
{
    assert(advance_times(None, len, k) == advance_spec(advance_times(None, len, (k - 1) as nat), len));
    if k > 1 {
        lemma_advance_prefix(len, (k - 1) as nat);
    } else {
        assert(advance_times(None, len, 0) == None::<usize>);
    }
}

proof fn lemma_advance_empty(k: nat)
    ensures
        advance_times(None, 0, k) == None::<usize>,
    decreases k,
{
    if k > 0 {
        lemma_advance_empty((k - 1) as nat);
    }
}

} // verus!
