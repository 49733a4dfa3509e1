//! Editing a single-line text field: typing, backspace and cursor moves.
use crate::model::InputState;
use crate::text::{
    byte_len, char_starts_at, char_width, char_width_of, chars_of, lemma_byte_len_push, str_len,
    string_push, string_remove,
};
use vstd::prelude::*;

verus! {

/// Longest text, in bytes, to which a field still accepts a character.
pub const MAX_INPUT_LEN: usize = 8192;

/// Typing `c` appends it unless the text is already `MAX_INPUT_LEN` bytes
/// or longer; the cursor then moves one step right.
pub open spec fn typed(input: InputState, c: char) -> (Seq<char>, int) {
    if str_len(input.value@) >= MAX_INPUT_LEN {
        (input.value@, input.cursor as int)
    } else {
        (input.value@.push(c), input.cursor + 1)
    }
}

/// Typing would overflow the cursor (std panics on that overflow).
pub open spec fn push_overflows(input: InputState) -> bool {
    str_len(input.value@) < MAX_INPUT_LEN && input.cursor == usize::MAX
}

pub fn push_char(input: &mut InputState, c: char)
    requires
        !push_overflows(*old(input)),
    ensures
        (final(input).value@, final(input).cursor as int) == typed(*old(input), c),
{
    if input.value.as_str().len() >= MAX_INPUT_LEN {
        return;
    }
    string_push(&mut input.value, c);
    input.cursor += 1;
}

/// A backspace at this cursor does not make std panic: the cursor is at the
/// start, or the byte before it starts a character.
pub open spec fn backspace_ok(input: InputState) -> bool {
    input.cursor == 0 || exists|k: int| #[trigger] char_starts_at(input.value@, input.cursor - 1, k)
}

/// The index of the character that a backspace removes.
pub open spec fn backspace_target(input: InputState) -> int {
    choose|k: int| #[trigger] char_starts_at(input.value@, input.cursor - 1, k)
}

/// Backspace removes the character that starts at byte `cursor - 1` and
/// moves the cursor one step left; at the start it does nothing.
pub fn backspace(input: &mut InputState)
    requires
        backspace_ok(*old(input)),
    ensures
        old(input).cursor == 0 ==> *final(input) == *old(input),
        old(input).cursor > 0 ==> final(input).cursor == old(input).cursor - 1
            && final(input).value@ == old(input).value@.remove(backspace_target(*old(input))),
{
    if input.cursor > 0 {
        string_remove(&mut input.value, input.cursor - 1);
        input.cursor -= 1;
    }
}

/// Whether [`backspace`] can run on this field without std panicking.
pub fn can_backspace(input: &InputState) -> (b: bool)
    ensures
        b == backspace_ok(*input),
{
    if input.cursor == 0 {
        return true;
    }
    let target = input.cursor - 1;
    let cs = chars_of(input.value.as_str());
    let mut k: usize = 0;
    let mut offset: usize = 0;
    while k < cs.len()
        invariant
            cs@ == input.value@,
            input.cursor > 0,
            target == input.cursor - 1,
            k <= cs.len(),
            offset == byte_len(cs@.take(k as int)),
            offset <= target,
            forall|j: int| 0 <= j < k ==> byte_len(#[trigger] cs@.take(j)) < target,
        decreases cs.len() - k,
    {
        if offset == target {
            assert(char_starts_at(input.value@, input.cursor - 1, k as int));
            return true;
        }
        let w = char_width_of(cs[k]);
        proof {
            assert(cs@.take(k + 1) =~= cs@.take(k as int).push(cs@[k as int]));
            lemma_byte_len_push(cs@.take(k as int), cs@[k as int]);
            lemma_byte_len_monotone(cs@, k as int);
        }
        if target - offset < w {
            proof {
                lemma_no_start(cs@, target as int, k as int);
                assert(target as int == input.cursor - 1);
            }
            return false;
        }
        offset = offset + w;
        k += 1;
    }
    proof {
        lemma_no_start_at_end(cs@, target as int);
        assert(target as int == input.cursor - 1);
    }
    false
}

proof fn lemma_byte_len_monotone(s: Seq<char>, k: int)
    requires
        0 <= k < s.len(),
    ensures
        forall|j: int| k < j <= s.len() ==> byte_len(#[trigger] s.take(j)) >= byte_len(s.take(k))
            + char_width(s[k]),
    decreases s.len() - k,
{
    assert(s.take(k + 1) =~= s.take(k).push(s[k]));
    lemma_byte_len_push(s.take(k), s[k]);
    if k + 1 < s.len() {
        lemma_byte_len_monotone(s, k + 1);
    }
}

proof fn lemma_no_start(s: Seq<char>, target: int, k: int)
    requires
        0 <= k < s.len(),
        forall|j: int| 0 <= j < k ==> byte_len(#[trigger] s.take(j)) < target,
        byte_len(s.take(k)) < target,
        target < byte_len(s.take(k)) + char_width(s[k]),
    ensures
        !(exists|j: int| #[trigger] char_starts_at(s, target, j)),
{
    lemma_byte_len_monotone(s, k);
    assert forall|j: int| !char_starts_at(s, target, j) by {
        if 0 <= j < s.len() && j > k {
            assert(byte_len(s.take(j)) >= byte_len(s.take(k)) + char_width(s[k]));
        }
    }
}

proof fn lemma_no_start_at_end(s: Seq<char>, target: int)
    requires
        forall|j: int| 0 <= j < s.len() ==> byte_len(#[trigger] s.take(j)) < target,
    ensures
        !(exists|j: int| #[trigger] char_starts_at(s, target, j)),
{
}

/// The cursor moves one step left unless it is at the start.
pub fn cursor_left(input: &mut InputState)
    ensures
        final(input).value@ == old(input).value@,
        final(input).cursor == if old(input).cursor > 0 {
            (old(input).cursor - 1) as usize
        } else {
            0
        },
{
    if input.cursor > 0 {
        input.cursor -= 1;
    }
}

/// Typing a character at the end of the text and then pressing backspace
/// gives back the text and the cursor as they were.
pub proof fn backspace_undoes_typing(i: InputState, c: char, t: InputState)
    requires
        byte_len(i.value@) == i.cursor,
        str_len(i.value@) < MAX_INPUT_LEN,
        (t.value@, t.cursor as int) == typed(i, c),
    ensures
        backspace_ok(t),
        t.cursor > 0,
        t.cursor - 1 == i.cursor,
        t.value@.remove(backspace_target(t)) == i.value@,
{
    let v = i.value@;
    let s = t.value@;
    let k = v.len() as int;
    assert(s == v.push(c));
    assert(s.take(k) =~= v);
    assert(char_starts_at(s, i.cursor as int, k));
    let j = backspace_target(t);
    assert(char_starts_at(s, t.cursor - 1, j));
    if j < k {
        lemma_byte_len_monotone(s, j);
        assert(byte_len(s.take(k)) >= byte_len(s.take(j)) + char_width(s[j]));
    }
    assert(j == k);
    assert(s.remove(k) =~= v);
}

} // verus!
