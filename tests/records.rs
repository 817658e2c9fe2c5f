use pdbparser::atom::Atom;
use pdbparser::error::PdbError;
use pdbparser::graph::{build_graph, distance_squared};
use pdbparser::radii::covalent_radius;
use pdbparser::record::{is_atom_line, parse_atom_record};
use pdbparser::structure::load_atoms;
use pdbparser::text::{decimal_milli, trimmed_bounds};

const LINE: &str =
    "ATOM      1  N   MET A   1      27.340  24.430   2.614  1.00  9.67           N  ";

#[test]
fn parses_a_standard_record() {
    let a = parse_atom_record(LINE.as_bytes()).unwrap();
    assert_eq!((a.x, a.y, a.z), (27340, 24430, 2614));
    assert_eq!(a.element, b"N".to_vec());
}

#[test]
fn parses_negative_and_two_letter_symbols() {
    let line = "ATOM      2 FE   HEM A   1      -1.500  -0.250 -10.000  1.00  0.00          Fe";
    let a = parse_atom_record(line.as_bytes()).unwrap();
    assert_eq!((a.x, a.y, a.z), (-1500, -250, -10000));
    assert_eq!(a.element, b"Fe".to_vec());
}

#[test]
fn rejects_other_records() {
    assert_eq!(parse_atom_record(b"HETATM    1  O   HOH A   1       0.000   0.000   0.000").err(), Some(PdbError::NotAnAtomRecord));
    assert_eq!(parse_atom_record(b"").err(), Some(PdbError::NotAnAtomRecord));
    assert_eq!(parse_atom_record(b"ATO").err(), Some(PdbError::NotAnAtomRecord));
    assert!(is_atom_line(LINE.as_bytes()));
    assert!(!is_atom_line(b"atom"));
}

#[test]
fn rejects_short_and_non_numeric_records() {
    assert_eq!(parse_atom_record(&LINE.as_bytes()[..77]).err(), Some(PdbError::MalformedRecord));
    let mut bad = LINE.as_bytes().to_vec();
    bad[40] = b'?';
    assert_eq!(parse_atom_record(&bad).err(), Some(PdbError::MalformedRecord));
    let mut blank = LINE.as_bytes().to_vec();
    for b in &mut blank[46..54] {
        *b = b' ';
    }
    assert_eq!(parse_atom_record(&blank).err(), Some(PdbError::MalformedRecord));
}

#[test]
fn loads_atoms_in_order() {
    let lines = vec![
        b"HEADER".to_vec(),
        LINE.as_bytes().to_vec(),
        b"".to_vec(),
        "ATOM      2  CA  MET A   1      26.266  25.413   2.842  1.00 10.38           C  "
            .as_bytes()
            .to_vec(),
    ];
    let atoms = load_atoms(&lines).unwrap();
    assert_eq!(atoms.len(), 2);
    assert_eq!(atoms[0].x, 27340);
    assert_eq!(atoms[1].x, 26266);
    assert_eq!(atoms[1].element, b"C".to_vec());
}

#[test]
fn radius_lookup() {
    assert_eq!(covalent_radius(b"C"), Some(76));
    assert_eq!(covalent_radius(b"Na"), Some(166));
    assert_eq!(covalent_radius(b"Cl"), Some(102));
    assert_eq!(covalent_radius(b"Fr"), Some(260));
    assert_eq!(covalent_radius(b"CL"), None);
    assert_eq!(covalent_radius(b"Xx"), None);
    assert_eq!(covalent_radius(b""), None);
}

#[test]
fn decimals_in_thousandths() {
    let s = b"  -12.5 ";
    assert_eq!(trimmed_bounds(s, 0, s.len()), (2, 7));
    assert_eq!(decimal_milli(s, 2, 7), Some(-12500));
    assert_eq!(decimal_milli(b"7", 0, 1), Some(7000));
    assert_eq!(decimal_milli(b"1.2.3", 0, 5), None);
    assert_eq!(decimal_milli(b"-", 0, 1), None);
}

#[test]
fn squared_distance_in_milliangstrom() {
    let a = Atom { x: 0, y: 0, z: 0, element: b"C".to_vec() };
    let b = Atom { x: 3000, y: -4000, z: 12000, element: b"C".to_vec() };
    assert_eq!(distance_squared(&a, &b), 169_000_000);
    assert_eq!(distance_squared(&b, &a), 169_000_000);
}

#[test]
fn build_checks_every_element() {
    let atoms = vec![
        Atom { x: 0, y: 0, z: 0, element: b"C".to_vec() },
        Atom { x: 1000, y: 0, z: 0, element: b"Q".to_vec() },
    ];
    assert_eq!(build_graph(&atoms, 2500), Err(PdbError::UnknownElement));
    let empty: Vec<Atom> = Vec::new();
    assert_eq!(build_graph(&empty, 2500), Ok(vec![]));
}
