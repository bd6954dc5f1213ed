//! Tests of the name table and of the bit-packed note.

use envtool::blueprint::{EntityKind, Roboport, UndergroundBelt};
use envtool::names::{NameError, Names};
use envtool::note::{Accidental, Note, NoteValue, PitchName};

#[test]
fn names_route_by_prototype() {
    let mut names = Names::new();
    names.add(3, "iron-plate", "item").unwrap();
    names.add(3, "iron-smelting", "recipe").unwrap();
    names.add(1, "roboport", "roboport-prototype").unwrap();
    names.add(0, "water", "fluid").unwrap();
    names.add(2, "concrete", "tile").unwrap();
    names.add(5, "signal-A", "virtual-signal").unwrap();
    names.add(1, "legendary", "quality").unwrap();
    names.add(0, "nauvis", "planet").unwrap();

    assert_eq!(names.get_item_name(3).unwrap(), "iron-plate");
    assert_eq!(names.get_recipe_name(3).unwrap(), "iron-smelting");
    assert_eq!(names.get_entity_name(1).unwrap(), "roboport");
    assert_eq!(names.get_fluid_name(0).unwrap(), "water");
    assert_eq!(names.get_tile_name(2).unwrap(), "concrete");
    assert_eq!(names.get_virtual_signal_name(5).unwrap(), "signal-A");
    assert_eq!(names.get_quality_name(1).unwrap(), "legendary");
    assert_eq!(names.get_planet_name(0).unwrap(), "nauvis");
}

#[test]
fn names_reject_duplicates_and_bad_indexes() {
    let mut names = Names::new();
    names.add(2, "iron-plate", "item").unwrap();
    assert_eq!(
        names.add(2, "copper-plate", "item").unwrap_err(),
        NameError::DuplicateIndex,
    );
    // an index never grown into
    assert_eq!(names.get_item_name(9).unwrap_err(), NameError::IndexOutOfRange);
    // an index grown over but never set
    assert_eq!(names.get_item_name(1).unwrap_err(), NameError::IndexInvalid);
    // the other namespaces are untouched
    assert_eq!(names.get_recipe_name(2).unwrap_err(), NameError::IndexOutOfRange);
}

#[test]
fn note_fields_pack_and_unpack() {
    let note = Note::default()
        .with_name(PitchName::C)
        .with_octave(5)
        .with_accidental(Accidental::Sharp)
        .with_value(NoteValue::V8)
        .with_tie(true);
    assert_eq!(note.0 & 0x7, 3);
    assert_eq!(note.octave(), 5);
    assert_eq!((note.0 & 0x1C0) >> 6, 1);
    assert_eq!((note.0 & 0xE00) >> 9, 3);
    assert!(note.tie());

    // fields do not disturb each other
    let renamed = note.with_name(PitchName::G);
    assert_eq!(renamed.octave(), 5);
    assert!(renamed.tie());
    let untied = renamed.with_tie(false);
    assert_eq!(untied.0 & 0x7, 7);
    assert!(!untied.tie());
}

#[test]
fn note_default_word() {
    // A4, a quarter note, a quarter loudness.
    let note = Note::default();
    assert_eq!(note.0, 0x2000_0000 | 0b0000_010_000_100_001);
    assert_eq!(note.0 & 0x7, 1);
    assert_eq!(note.octave(), 4);
    assert_eq!((note.0 & 0xE00) >> 9, 2);
    assert!(!note.tie());
}

#[test]
fn note_value_64_and_128_codes() {
    // The format packs a sixty-fourth as 7; the hundred-twenty-eighth's
    // code is 8 and spills into the tie bit, as the packing fixed it.
    let n = Note(0).with_value(NoteValue::V64);
    assert_eq!((n.0 & 0xE00) >> 9, 7);
    let n = Note(0).with_value(NoteValue::V128);
    assert_eq!(n.0, 8 << 9);
}

#[test]
fn entity_kind_names() {
    let port = EntityKind::Roboport(Roboport {
        circuit_connections: None,
        read_logistics: true,
        read_robot_stats: false,
        available_logistic_output_signal: None,
        total_logistic_output_signal: None,
        available_construction_output_signal: None,
        total_construction_output_signal: None,
        roboport_count_output_signal: None,
    });
    assert_eq!(port.name(), "roboport");
    let belt = EntityKind::ExpressUndergroundBelt(UndergroundBelt { direction: 2, output: true });
    assert_eq!(belt.name(), "express-underground-belt");
}
