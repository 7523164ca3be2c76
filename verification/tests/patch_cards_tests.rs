use tango::patch_cards::{
    effect_fill, patch_card4_row, patch_card4s_clipboard_text, patch_card56_row,
    patch_card56s_clipboard_text, slot_label, PatchCard, PatchCard4Info, PatchCard4Row,
    PatchCard56Effect, PatchCard56Info, PatchCard56Slot, Rgb, State,
};

fn card(id: usize, enabled: bool) -> Option<PatchCard> {
    Some(PatchCard { id, enabled })
}

fn effect(name: &str, is_ability: bool, is_debuff: bool) -> PatchCard56Effect {
    PatchCard56Effect { name: name.to_string(), is_ability, is_debuff }
}

#[test]
fn new_state() {
    let _s = State::new();
}

#[test]
fn fills() {
    assert_eq!(effect_fill(true, true), Rgb { r: 0xb5, g: 0x5a, b: 0xde });
    assert_eq!(effect_fill(true, false), Rgb { r: 0xff, g: 0xbd, b: 0x18 });
    assert_eq!(effect_fill(false, true), Rgb { r: 0xbd, g: 0xbd, b: 0xbd });
    assert_eq!(effect_fill(false, false), Rgb { r: 0xbd, g: 0xbd, b: 0xbd });
}

#[test]
fn slot_labels() {
    let labels: Vec<String> = (0..6).map(slot_label).collect();
    assert_eq!(labels, vec!["0A", "0B", "0C", "0D", "0E", "0F"]);
}

#[test]
fn card4s_clipboard() {
    let cards = vec![card(1, true), card(23, false), None, card(456, true), card(7, true), card(1000, true)];
    assert_eq!(patch_card4s_clipboard_text(&cards), "001\n---\n---\n456\n007\n1000");
    assert_eq!(patch_card4s_clipboard_text(&vec![]), "");
    assert_eq!(patch_card4s_clipboard_text(&vec![card(0, true)]), "000");
}

#[test]
fn card4_rows() {
    let info = PatchCard4Info {
        name: "Super Armor".to_string(),
        effect: "No flinch".to_string(),
        bug: Some("HP bug".to_string()),
    };
    match patch_card4_row(2, card(9, false), Some(info)) {
        PatchCard4Row::Filled { name_label, slot_label, struck, effects } => {
            assert_eq!(name_label, "#009 Super Armor");
            assert_eq!(slot_label, "0C");
            assert!(struck);
            assert_eq!(effects.len(), 2);
            assert_eq!(effects[0].text, "No flinch");
            assert_eq!(effects[0].fill, Rgb { r: 0xbd, g: 0xbd, b: 0xbd });
            assert_eq!(effects[1].text, "HP bug");
        }
        _ => panic!("expected a filled row"),
    }
    let info = PatchCard4Info { name: "X".to_string(), effect: "Y".to_string(), bug: None };
    match patch_card4_row(0, card(120, true), Some(info)) {
        PatchCard4Row::Filled { name_label, struck, effects, .. } => {
            assert_eq!(name_label, "#120 X");
            assert!(!struck);
            assert_eq!(effects.len(), 1);
            assert_eq!(effects[0].fill, Rgb { r: 0xff, g: 0xbd, b: 0x18 });
        }
        _ => panic!("expected a filled row"),
    }
    match patch_card4_row(5, card(3, true), None) {
        PatchCard4Row::Empty { slot_label } => assert_eq!(slot_label, "0F"),
        _ => panic!("expected an empty row"),
    }
    match patch_card4_row(1, None, None) {
        PatchCard4Row::Empty { slot_label } => assert_eq!(slot_label, "0B"),
        _ => panic!("expected an empty row"),
    }
}

fn info56(name: &str, mb: u8, effects: Vec<PatchCard56Effect>) -> Option<PatchCard56Info> {
    Some(PatchCard56Info { name: name.to_string(), mb, effects })
}

#[test]
fn card56s_clipboard() {
    let slots = vec![
        PatchCard56Slot { card: card(1, true), info: info56("Attack+1", 12, vec![]) },
        PatchCard56Slot { card: card(2, false), info: info56("Off", 5, vec![]) },
        PatchCard56Slot { card: None, info: None },
        PatchCard56Slot { card: card(3, true), info: None },
        PatchCard56Slot { card: card(4, true), info: info56("Speed", 3, vec![]) },
    ];
    assert_eq!(patch_card56s_clipboard_text(&slots), "Attack+1\t12\nSpeed\t3");
    assert_eq!(patch_card56s_clipboard_text(&vec![]), "");
}

#[test]
fn card56_rows() {
    let slot = PatchCard56Slot {
        card: card(1, true),
        info: info56(
            "Buster",
            80,
            vec![
                effect("Atk+1", false, false),
                effect("HP-10", false, true),
                effect("Dash", true, false),
                effect("Rapid", false, false),
            ],
        ),
    };
    let row = patch_card56_row(&slot);
    let title = row.title.unwrap();
    assert_eq!(title.name, "Buster");
    assert!(!title.struck);
    assert_eq!(title.mb_label, "80MB");
    let texts: Vec<&str> = row.effects.iter().map(|e| e.text.as_str()).collect();
    assert_eq!(texts, vec!["Atk+1", "HP-10", "Rapid"]);
    assert_eq!(row.effects[1].fill, Rgb { r: 0xb5, g: 0x5a, b: 0xde });
    assert_eq!(row.abilities.len(), 1);
    assert_eq!(row.abilities[0].text, "Dash");
    assert_eq!(row.lines, 3);

    let off = PatchCard56Slot { card: card(1, false), info: info56("Z", 0, vec![effect("Dash", true, true)]) };
    let row = patch_card56_row(&off);
    assert!(row.title.unwrap().struck);
    assert_eq!(row.abilities[0].fill, Rgb { r: 0xbd, g: 0xbd, b: 0xbd });
    assert_eq!(row.lines, 2);

    let empty = PatchCard56Slot { card: None, info: None };
    let row = patch_card56_row(&empty);
    assert!(row.title.is_none());
    assert!(row.effects.is_empty() && row.abilities.is_empty());
    assert_eq!(row.lines, 2);
}
