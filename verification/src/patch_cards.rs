//! What the save viewer shows of the patch cards in a save: the rows of the
//! table, the colours of the effect badges and the text copied to the clipboard.
//!
//! Games of the fourth series have six patch-card slots, each holding a card
//! with one effect and possibly one bug. Games of the fifth and sixth series
//! have a list of cards, each with a size in megabytes and effects that are
//! either abilities or not.

use crate::text::{decimal, decimal_padded3, push_char, push_decimal, push_decimal_padded3};
use vstd::string::StringExecFns;
use vstd::prelude::*;

verus! {

/// The view's own state (it keeps none).
pub struct State {}

impl State {
    /// A fresh view state.
    pub fn new() -> (s: State)
        ensures
            s == (State {}),
    {
        State {}
    }
}

/// A patch card as a save slot holds it.
#[derive(Debug, Clone, Copy, PartialEq, Eq, Structural)]
pub struct PatchCard {
    pub id: usize,
    pub enabled: bool,
}

/// What the game's data says of a fourth-series patch card.
pub struct PatchCard4Info {
    pub name: String,
    pub effect: String,
    pub bug: Option<String>,
}

/// One effect of a fifth- or sixth-series patch card.
pub struct PatchCard56Effect {
    pub name: String,
    pub is_ability: bool,
    pub is_debuff: bool,
}

/// What the game's data says of a fifth- or sixth-series patch card.
pub struct PatchCard56Info {
    pub name: String,
    pub mb: u8,
    pub effects: Vec<PatchCard56Effect>,
}

/// A colour.
#[derive(Debug, Clone, Copy, PartialEq, Eq, Structural)]
pub struct Rgb {
    pub r: u8,
    pub g: u8,
    pub b: u8,
}

/// The fill of an effect badge: purple for an active bug, yellow for another
/// active effect, grey for an effect of a card that is switched off.
pub open spec fn spec_effect_fill(is_enabled: bool, is_debuff: bool) -> Rgb {
    if is_enabled {
        if is_debuff {
            Rgb { r: 0xb5, g: 0x5a, b: 0xde }
        } else {
            Rgb { r: 0xff, g: 0xbd, b: 0x18 }
        }
    } else {
        Rgb { r: 0xbd, g: 0xbd, b: 0xbd }
    }
}

/// The fill of an effect badge.
pub fn effect_fill(is_enabled: bool, is_debuff: bool) -> (c: Rgb)
    ensures
        c == spec_effect_fill(is_enabled, is_debuff),
{
    if is_enabled {
        if is_debuff {
            Rgb { r: 0xb5, g: 0x5a, b: 0xde }
        } else {
            Rgb { r: 0xff, g: 0xbd, b: 0x18 }
        }
    } else {
        Rgb { r: 0xbd, g: 0xbd, b: 0xbd }
    }
}

/// An effect badge: its text and its fill.
pub struct EffectLabel {
    pub text: String,
    pub fill: Rgb,
}

/// The texts and fills of a list of badges.
pub open spec fn labels_view(v: Seq<EffectLabel>) -> Seq<(Seq<char>, Rgb)> {
    v.map_values(|l: EffectLabel| (l.text@, l.fill))
}

/// Three dashes, the text of an empty slot.
pub open spec fn dashes() -> Seq<char> {
    seq!['-', '-', '-']
}

/// Lines joined by newlines, without a newline at the end.
pub open spec fn join_lines(lines: Seq<Seq<char>>) -> Seq<char>
    decreases lines.len(),
{
    if lines.len() == 0 {
        Seq::empty()
    } else if lines.len() == 1 {
        lines[0]
    } else {
        join_lines(lines.drop_last()) + seq!['\n'] + lines.last()
    }
}

proof fn lemma_join_lines_push(lines: Seq<Seq<char>>, l: Seq<char>)
    ensures
        join_lines(lines.push(l)) == if lines.len() == 0 {
            l
        } else {
            join_lines(lines) + seq!['\n'] + l
        },
{
    assert(lines.push(l).drop_last() =~= lines);
}

/// The label of slot `slot` of a fourth-series save: `0A` to `0F`.
pub open spec fn spec_slot_label(slot: nat) -> Seq<char> {
    seq!['0', (65 + slot) as char]
}

/// The label of slot `slot` of a fourth-series save.
pub fn slot_label(slot: usize) -> (s: String)
    requires
        slot < 6,
    ensures
        s@ == spec_slot_label(slot as nat),
{
    let mut s = String::new();
    push_char(&mut s, '0');
    push_char(&mut s, (65u8 + slot as u8) as char);
    assert(s@ =~= spec_slot_label(slot as nat));
    s
}

/// The clipboard line of a fourth-series slot: the card's number in three
/// digits if the slot holds a card that is switched on, else three dashes.
pub open spec fn spec_card4_line(card: Option<PatchCard>) -> Seq<char> {
    match card {
        Some(c) => if c.enabled {
            decimal_padded3(c.id as nat)
        } else {
            dashes()
        },
        None => dashes(),
    }
}

/// The clipboard text of the fourth-series slots: one line per slot.
pub open spec fn spec_card4s_clipboard_text(cards: Seq<Option<PatchCard>>) -> Seq<char> {
    join_lines(cards.map_values(|c: Option<PatchCard>| spec_card4_line(c)))
}

/// The text copied to the clipboard for the fourth-series slots.
pub fn patch_card4s_clipboard_text(cards: &Vec<Option<PatchCard>>) -> (s: String)
    ensures
        s@ == spec_card4s_clipboard_text(cards@),
{
    let mut s = String::new();
    let mut i: usize = 0;
    while i < cards.len()
        invariant
            i <= cards@.len(),
            s@ == spec_card4s_clipboard_text(cards@.take(i as int)),
        decreases cards@.len() - i,
    {
        proof {
            let f = |c: Option<PatchCard>| spec_card4_line(c);
            assert(cards@.take(i + 1).map_values(f) =~= cards@.take(i as int).map_values(f).push(
                f(cards@[i as int]),
            ));
            lemma_join_lines_push(cards@.take(i as int).map_values(f), f(cards@[i as int]));
        }
        if i > 0 {
            push_char(&mut s, '\n');
        }
        let ghost line_start = s@;
        match cards[i] {
            Some(c) => {
                if c.enabled {
                    push_decimal_padded3(&mut s, c.id);
                } else {
                    push_char(&mut s, '-');
                    push_char(&mut s, '-');
                    push_char(&mut s, '-');
                }
            },
            None => {
                push_char(&mut s, '-');
                push_char(&mut s, '-');
                push_char(&mut s, '-');
            },
        }
        assert(s@ =~= line_start + spec_card4_line(cards@[i as int]));
        i = i + 1;
    }
    assert(cards@.take(i as int) =~= cards@);
    s
}

/// A row of the fourth-series table.
pub enum PatchCard4Row {
    /// A slot that holds a card the game knows: the name label (number and
    /// name), the slot label, whether both are struck through because the
    /// card is switched off, and the effect badges.
    Filled { name_label: String, slot_label: String, struck: bool, effects: Vec<EffectLabel> },
    /// A slot without a card the game knows: it shows three dashes and the
    /// struck-through slot label.
    Empty { slot_label: String },
}

/// The name label of a fourth-series card: `#`, its number in three digits, a space, its name.
pub open spec fn spec_card4_name_label(id: nat, name: Seq<char>) -> Seq<char> {
    seq!['#'] + decimal_padded3(id) + seq![' '] + name
}

/// The badges of a fourth-series card: its effect, then its bug if it has one.
pub open spec fn spec_card4_effects(info: PatchCard4Info, enabled: bool) -> Seq<(Seq<char>, Rgb)> {
    seq![(info.effect@, spec_effect_fill(enabled, false))] + match info.bug {
        Some(b) => seq![(b@, spec_effect_fill(enabled, true))],
        None => Seq::empty(),
    }
}

/// The row of slot `slot` of a fourth-series table, for the card the slot
/// holds and what the game's data says of that card.
pub fn patch_card4_row(slot: usize, card: Option<PatchCard>, info: Option<PatchCard4Info>) -> (r:
    PatchCard4Row)
    requires
        slot < 6,
    ensures
        match (card, info) {
            (Some(c), Some(i)) => r matches PatchCard4Row::Filled {
                name_label,
                slot_label,
                struck,
                effects,
            } && name_label@ == spec_card4_name_label(c.id as nat, i.name@) && slot_label@
                == spec_slot_label(slot as nat) && struck == !c.enabled && labels_view(effects@)
                == spec_card4_effects(i, c.enabled),
            _ => r matches PatchCard4Row::Empty { slot_label } && slot_label@ == spec_slot_label(
                slot as nat,
            ),
        },
{
    match (card, info) {
        (Some(c), Some(i)) => {
            let ghost info_v = i;
            let mut name_label = String::new();
            push_char(&mut name_label, '#');
            push_decimal_padded3(&mut name_label, c.id);
            push_char(&mut name_label, ' ');
            name_label.append(i.name.as_str());
            assert(name_label@ =~= spec_card4_name_label(c.id as nat, i.name@));
            let mut effects: Vec<EffectLabel> = Vec::new();
            effects.push(EffectLabel { text: i.effect, fill: effect_fill(c.enabled, false) });
            match i.bug {
                Some(b) => {
                    effects.push(EffectLabel { text: b, fill: effect_fill(c.enabled, true) });
                },
                None => {},
            }
            assert(labels_view(effects@) =~= spec_card4_effects(info_v, c.enabled));
            PatchCard4Row::Filled {
                name_label,
                slot_label: slot_label(slot),
                struck: !c.enabled,
                effects,
            }
        },
        _ => PatchCard4Row::Empty { slot_label: slot_label(slot) },
    }
}

/// A slot of a fifth- or sixth-series save: the card it holds and what the
/// game's data says of that card.
pub struct PatchCard56Slot {
    pub card: Option<PatchCard>,
    pub info: Option<PatchCard56Info>,
}

/// The slot holds a card that is switched on and that the game knows.
pub open spec fn card56_copied(s: PatchCard56Slot) -> bool {
    &&& s.card is Some
    &&& s.card->0.enabled
    &&& s.info is Some
}

/// The clipboard line of such a card: its name, a tab, its size in megabytes.
pub open spec fn spec_card56_line(info: PatchCard56Info) -> Seq<char> {
    info.name@ + seq!['\t'] + decimal(info.mb as nat)
}

/// The clipboard lines of the slots, one for each card that is copied.
pub open spec fn spec_card56_lines(slots: Seq<PatchCard56Slot>) -> Seq<Seq<char>>
    decreases slots.len(),
{
    if slots.len() == 0 {
        Seq::empty()
    } else {
        let rest = spec_card56_lines(slots.drop_last());
        if card56_copied(slots.last()) {
            rest.push(spec_card56_line(slots.last().info->0))
        } else {
            rest
        }
    }
}

/// The text copied to the clipboard for fifth- and sixth-series slots: one
/// line per card that is switched on and known to the game.
pub fn patch_card56s_clipboard_text(slots: &Vec<PatchCard56Slot>) -> (s: String)
    ensures
        s@ == join_lines(spec_card56_lines(slots@)),
{
    let mut s = String::new();
    let mut any = false;
    let mut i: usize = 0;
    while i < slots.len()
        invariant
            i <= slots@.len(),
            s@ == join_lines(spec_card56_lines(slots@.take(i as int))),
            any == (spec_card56_lines(slots@.take(i as int)).len() > 0),
        decreases slots@.len() - i,
    {
        let ghost before = slots@.take(i as int);
        assert(slots@.take(i + 1).drop_last() =~= before);
        let slot = &slots[i];
        match (&slot.card, &slot.info) {
            (Some(c), Some(info)) => {
                if c.enabled {
                    proof {
                        lemma_join_lines_push(
                            spec_card56_lines(before),
                            spec_card56_line(slots@[i as int].info->0),
                        );
                    }
                    if any {
                        push_char(&mut s, '\n');
                    }
                    let ghost line_start = s@;
                    s.append(info.name.as_str());
                    push_char(&mut s, '\t');
                    push_decimal(&mut s, info.mb as usize);
                    assert(s@ =~= line_start + spec_card56_line(slots@[i as int].info->0));
                    any = true;
                }
            },
            _ => {},
        }
        i = i + 1;
    }
    assert(slots@.take(i as int) =~= slots@);
    s
}

/// The badges of a card's effects in one column: the abilities or the other
/// effects, in order. A badge is coloured as active only if the card is on.
pub open spec fn spec_effect_column(
    effects: Seq<PatchCard56Effect>,
    abilities: bool,
    enabled: bool,
) -> Seq<(Seq<char>, Rgb)>
    decreases effects.len(),
{
    if effects.len() == 0 {
        Seq::empty()
    } else {
        let rest = spec_effect_column(effects.drop_last(), abilities, enabled);
        let e = effects.last();
        if e.is_ability == abilities {
            rest.push((e.name@, spec_effect_fill(enabled, e.is_debuff)))
        } else {
            rest
        }
    }
}

/// The badges of one column of a card's effects.
fn effect_column(effects: &Vec<PatchCard56Effect>, abilities: bool, enabled: bool) -> (r: Vec<
    EffectLabel,
>)
    ensures
        labels_view(r@) == spec_effect_column(effects@, abilities, enabled),
{
    let mut out: Vec<EffectLabel> = Vec::new();
    let mut i: usize = 0;
    while i < effects.len()
        invariant
            i <= effects@.len(),
            labels_view(out@) == spec_effect_column(effects@.take(i as int), abilities, enabled),
        decreases effects@.len() - i,
    {
        assert(effects@.take(i + 1).drop_last() =~= effects@.take(i as int));
        let e = &effects[i];
        if e.is_ability == abilities {
            let ghost before = out@;
            out.push(EffectLabel { text: e.name.clone(), fill: effect_fill(enabled, e.is_debuff) });
            assert(labels_view(out@) =~= labels_view(before).push(
                (e.name@, spec_effect_fill(enabled, e.is_debuff)),
            ));
        }
        i = i + 1;
    }
    assert(effects@.take(i as int) =~= effects@);
    out
}

/// The title of a fifth- or sixth-series row.
pub struct PatchCard56Title {
    /// The card's name.
    pub name: String,
    /// The name is struck through: the card is switched off.
    pub struck: bool,
    /// The card's size: the number, then `MB`.
    pub mb_label: String,
}

/// A row of the fifth- and sixth-series table.
pub struct PatchCard56Row {
    /// Shown where the slot holds a card that the game knows.
    pub title: Option<PatchCard56Title>,
    /// The badges of the effects that are not abilities.
    pub effects: Vec<EffectLabel>,
    /// The badges of the abilities.
    pub abilities: Vec<EffectLabel>,
    /// How many text lines tall the row is: as many as the longer column, and at least two.
    pub lines: usize,
}

/// The size label of a card: the number of megabytes, then `MB`.
pub open spec fn spec_mb_label(mb: u8) -> Seq<char> {
    decimal(mb as nat) + seq!['M', 'B']
}

/// The effects shown for a slot: those of its card where the slot holds one
/// that the game knows, else none.
pub open spec fn slot_effects(s: PatchCard56Slot) -> Seq<PatchCard56Effect> {
    if s.card is Some && s.info is Some {
        s.info->0.effects@
    } else {
        Seq::empty()
    }
}

/// Whether the card of a slot is switched on (a slot without a card is off).
pub open spec fn slot_enabled(s: PatchCard56Slot) -> bool {
    match s.card {
        Some(c) => c.enabled,
        None => false,
    }
}

/// The row of a fifth- or sixth-series slot.
pub fn patch_card56_row(slot: &PatchCard56Slot) -> (r: PatchCard56Row)
    ensures
        match (slot.card, slot.info) {
            (Some(c), Some(i)) => r.title matches Some(t) && t.name@ == i.name@ && t.struck
                == !c.enabled && t.mb_label@ == spec_mb_label(i.mb),
            _ => r.title is None,
        },
        labels_view(r.effects@) == spec_effect_column(
            slot_effects(*slot),
            false,
            slot_enabled(*slot),
        ),
        labels_view(r.abilities@) == spec_effect_column(
            slot_effects(*slot),
            true,
            slot_enabled(*slot),
        ),
        r.lines == if r.effects@.len() >= r.abilities@.len() && r.effects@.len() >= 2 {
            r.effects@.len()
        } else if r.abilities@.len() >= 2 {
            r.abilities@.len()
        } else {
            2
        },
{
    let enabled = match &slot.card {
        Some(c) => c.enabled,
        None => false,
    };
    let (title, effects, abilities) = match (&slot.card, &slot.info) {
        (Some(c), Some(info)) => {
            let mut mb_label = String::new();
            push_decimal(&mut mb_label, info.mb as usize);
            push_char(&mut mb_label, 'M');
            push_char(&mut mb_label, 'B');
            assert(mb_label@ =~= spec_mb_label(info.mb));
            let title = PatchCard56Title { name: info.name.clone(), struck: !c.enabled, mb_label };
            (
                Some(title),
                effect_column(&info.effects, false, enabled),
                effect_column(&info.effects, true, enabled),
            )
        },
        _ => {
            let none: Vec<PatchCard56Effect> = Vec::new();
            assert(spec_effect_column(none@, false, enabled) =~= Seq::empty());
            assert(spec_effect_column(none@, true, enabled) =~= Seq::empty());
            (None, effect_column(&none, false, enabled), effect_column(&none, true, enabled))
        },
    };
    let longest = if effects.len() >= abilities.len() {
        effects.len()
    } else {
        abilities.len()
    };
    let lines = if longest >= 2 {
        longest
    } else {
        2
    };
    PatchCard56Row { title, effects, abilities, lines }
}

/// The colours of badges: a badge of a card that is switched off is grey;
/// one of a card that is on is purple for a bug and yellow otherwise.
pub proof fn lemma_effect_fill_colours(is_enabled: bool, is_debuff: bool)
    ensures
        !is_enabled ==> spec_effect_fill(is_enabled, is_debuff) == (Rgb { r: 0xbd, g: 0xbd, b: 0xbd }),
        is_enabled && is_debuff ==> spec_effect_fill(is_enabled, is_debuff) == (Rgb {
            r: 0xb5,
            g: 0x5a,
            b: 0xde,
        }),
        is_enabled && !is_debuff ==> spec_effect_fill(is_enabled, is_debuff) == (Rgb {
            r: 0xff,
            g: 0xbd,
            b: 0x18,
        }),
{
}

/// One column of a fifth- or sixth-series row holds a badge for each effect
/// of that kind (abilities, or the other effects), in order: the badge shows
/// the effect's name, and is grey where the card is off, purple for a bug
/// of a card that is on, and yellow for another effect of a card that is on.
pub proof fn lemma_effect_column_badges(
    effects: Seq<PatchCard56Effect>,
    abilities: bool,
    enabled: bool,
)
    ensures
        ({
            let kind = effects.filter(|e: PatchCard56Effect| e.is_ability == abilities);
            let col = spec_effect_column(effects, abilities, enabled);
            &&& col.len() == kind.len()
            &&& forall|i: int|
                0 <= i < col.len() ==> {
                    &&& (#[trigger] col[i]).0 == kind[i].name@
                    &&& !enabled ==> col[i].1 == (Rgb { r: 0xbd, g: 0xbd, b: 0xbd })
                    &&& enabled && kind[i].is_debuff ==> col[i].1 == (Rgb {
                        r: 0xb5,
                        g: 0x5a,
                        b: 0xde,
                    })
                    &&& enabled && !kind[i].is_debuff ==> col[i].1 == (Rgb {
                        r: 0xff,
                        g: 0xbd,
                        b: 0x18,
                    })
                }
        }),
    decreases effects.len(),
{
    reveal(Seq::filter);
    if effects.len() > 0 {
        lemma_effect_column_badges(effects.drop_last(), abilities, enabled);
    }
}

/// The badges of a fourth-series card: first its effect, coloured as an
/// ordinary effect (yellow where the card is on, grey where it is off), then,
/// where the card has a bug, the bug, coloured as a bug (purple where the
/// card is on, grey where it is off).
pub proof fn lemma_card4_badges(info: PatchCard4Info, enabled: bool)
    ensures
        ({
            let b = spec_card4_effects(info, enabled);
            &&& b.len() == if info.bug is Some {
                2int
            } else {
                1int
            }
            &&& b[0].0 == info.effect@
            &&& b[0].1 == if enabled {
                Rgb { r: 0xff, g: 0xbd, b: 0x18 }
            } else {
                Rgb { r: 0xbd, g: 0xbd, b: 0xbd }
            }
            &&& info.bug matches Some(bug) ==> {
                &&& b[1].0 == bug@
                &&& b[1].1 == if enabled {
                    Rgb { r: 0xb5, g: 0x5a, b: 0xde }
                } else {
                    Rgb { r: 0xbd, g: 0xbd, b: 0xbd }
                }
            }
        }),
{
}

} // verus!
