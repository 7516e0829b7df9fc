use bourso_core::error::ClientError;
use bourso_core::virtual_pad::password_to_virtual_pad_keys;

fn slots(ids: &[&str]) -> Vec<String> {
    ids.iter().map(|s| s.to_string()).collect()
}

#[test]
fn transcribe_emits_one_keystroke_per_character_in_order() {
    let layout = slots(&["ab", "cd", "ef"]);
    let keys = password_to_virtual_pad_keys(&layout, "adbec").unwrap();
    assert_eq!(keys.len(), 5);
    let expected = [("ab", 'a'), ("cd", 'd'), ("ab", 'b'), ("ef", 'e'), ("cd", 'c')];
    for (i, (slot, ch)) in expected.iter().enumerate() {
        assert_eq!(keys[i].slot_id, slot.to_string());
        assert_eq!(keys[i].character, *ch);
        assert_eq!(keys[i].rank, i + 1);
    }
}

#[test]
fn transcribe_picks_the_first_slot_that_contains_the_character() {
    let layout = slots(&["12", "23"]);
    let keys = password_to_virtual_pad_keys(&layout, "23").unwrap();
    assert_eq!(keys[0].slot_id, "12".to_string());
    assert_eq!(keys[1].slot_id, "23".to_string());
}

#[test]
fn transcribe_repeats_slots_for_repeated_characters() {
    let layout = slots(&["7"]);
    let keys = password_to_virtual_pad_keys(&layout, "777").unwrap();
    assert_eq!(keys.len(), 3);
    for (i, k) in keys.iter().enumerate() {
        assert_eq!(k.slot_id, "7".to_string());
        assert_eq!(k.character, '7');
        assert_eq!(k.rank, i + 1);
    }
}

#[test]
fn transcribe_of_empty_password_is_empty() {
    let layout = slots(&["ab"]);
    let keys = password_to_virtual_pad_keys(&layout, "").unwrap();
    assert_eq!(keys.len(), 0);
}

#[test]
fn transcribe_fails_on_first_uncovered_character() {
    let layout = slots(&["ab", "cd"]);
    let r = password_to_virtual_pad_keys(&layout, "abzcq");
    assert_eq!(r.unwrap_err(), ClientError::SlotNotFound('z'));
}

#[test]
fn transcribe_fails_on_empty_layout_with_nonempty_password() {
    let layout = slots(&[]);
    let r = password_to_virtual_pad_keys(&layout, "a");
    assert_eq!(r.unwrap_err(), ClientError::SlotNotFound('a'));
}
