use vstd::prelude::*;
use crate::error::ClientError;
use crate::text::str_contains_char;

verus! {

/// One keystroke on the virtual keypad: press slot `slot_id` for the password
/// character `character`, which sits at 1-based position `rank`.
///
/// The site randomizes its keypad per session and identifies keys by opaque
/// slot identifiers, so a password crosses the wire only as this list of
/// slot references, never as plaintext.
#[derive(Debug)]
pub struct KeypadKeystroke {
    pub slot_id: String,
    pub character: char,
    pub rank: usize,
}

/// `slots[i]` is the first slot whose identifier contains `c`.
pub open spec fn is_first_slot(slots: Seq<Seq<char>>, c: char, i: int) -> bool {
    &&& 0 <= i < slots.len()
    &&& slots[i].contains(c)
    &&& forall|k: int| 0 <= k < i ==> !slots[k].contains(c)
}

/// Some slot identifier contains the character `c`.
pub open spec fn has_slot(slots: Seq<Seq<char>>, c: char) -> bool {
    exists|i: int| 0 <= i < slots.len() && slots[i].contains(c)
}

/// Every character of the password appears in at least one slot.
pub open spec fn covered(slots: Seq<Seq<char>>, pw: Seq<char>) -> bool {
    forall|j: int| 0 <= j < pw.len() ==> has_slot(slots, pw[j])
}

/// `j` is the position of the first password character that no slot offers.
pub open spec fn first_uncovered_at(slots: Seq<Seq<char>>, pw: Seq<char>, j: int) -> bool {
    &&& 0 <= j < pw.len()
    &&& !has_slot(slots, pw[j])
    &&& forall|k: int| 0 <= k < j ==> has_slot(slots, pw[k])
}

/// `k` is the keystroke the transcription emits for the password character
/// at position `j`: that character, its 1-based rank, and the identifier of
/// the first slot that contains it.
pub open spec fn keystroke_ok(
    slots: Seq<Seq<char>>,
    pw: Seq<char>,
    j: int,
    k: KeypadKeystroke,
) -> bool {
    &&& k.character == pw[j]
    &&& k.rank == j + 1
    &&& exists|i: int| is_first_slot(slots, pw[j], i) && k.slot_id@ == slots[i]
}

/// `ks` is the complete transcription of `pw` onto `slots`.
pub open spec fn keystrokes_for(
    slots: Seq<Seq<char>>,
    pw: Seq<char>,
    ks: Seq<KeypadKeystroke>,
) -> bool {
    &&& ks.len() == pw.len()
    &&& forall|j: int| 0 <= j < pw.len() ==> keystroke_ok(slots, pw, j, ks[j])
}

/// The first slot whose identifier contains `c`, scanning in layout order.
fn find_slot(slots: &Vec<String>, c: char) -> (r: Option<usize>)
    ensures
        match r {
            Some(i) => is_first_slot(slots.deep_view(), c, i as int),
            None => !has_slot(slots.deep_view(), c),
        },
{
    let mut i: usize = 0;
    while i < slots.len()
        invariant
            i <= slots@.len(),
            forall|k: int| 0 <= k < i ==> !slots.deep_view()[k].contains(c),
        decreases slots@.len() - i,
    {
        if str_contains_char(slots[i].as_str(), c) {
            return Some(i);
        }
        i += 1;
    }
    None
}

/// Transcribe a plaintext password onto the session's keypad layout.
///
/// For each password character in order, the first slot identifier that
/// contains it is selected and a keystroke is emitted carrying that slot,
/// the character, and its 1-based rank. If some character appears in no
/// slot, the whole transcription fails with `SlotNotFound` for the first
/// such character and no keystroke list is produced: a partial submission
/// would be indistinguishable from a valid shorter password.
pub fn password_to_virtual_pad_keys(virtual_pad_ids: &Vec<String>, password: &str) -> (r: Result<
    Vec<KeypadKeystroke>,
    ClientError,
>)
    ensures
        match r {
            Ok(keys) => {
                &&& covered(virtual_pad_ids.deep_view(), password@)
                &&& keystrokes_for(virtual_pad_ids.deep_view(), password@, keys@)
            },
            Err(e) => {
                &&& !covered(virtual_pad_ids.deep_view(), password@)
                &&& exists|j: int|
                    first_uncovered_at(virtual_pad_ids.deep_view(), password@, j) && e
                        == ClientError::SlotNotFound(password@[j])
            },
        },
{
    let n = password.unicode_len();
    let mut keys: Vec<KeypadKeystroke> = Vec::new();
    let mut j: usize = 0;
    while j < n
        invariant
            n == password@.len(),
            j <= n,
            keys@.len() == j,
            forall|k: int| 0 <= k < j ==> has_slot(virtual_pad_ids.deep_view(), password@[k]),
            forall|k: int|
                0 <= k < j ==> keystroke_ok(
                    virtual_pad_ids.deep_view(),
                    password@,
                    k,
                    keys@[k],
                ),
        decreases n - j,
    {
        let c = password.get_char(j);
        match find_slot(virtual_pad_ids, c) {
            Some(i) => {
                keys.push(
                    KeypadKeystroke { slot_id: virtual_pad_ids[i].clone(), character: c, rank: j
                        + 1 },
                );
            },
            None => {
                proof {
                    assert(first_uncovered_at(virtual_pad_ids.deep_view(), password@, j as int));
                }
                return Err(ClientError::SlotNotFound(c));
            },
        }
        j += 1;
    }
    Ok(keys)
}

} // verus!
