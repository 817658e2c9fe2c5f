use pdbparser::convert::{convert, parse_scale, DEFAULT_SCALE};
use pdbparser::error::PdbError;
use pdbparser::graph::Edge;

fn atom_line(x: f64, y: f64, z: f64, element: &str) -> Vec<u8> {
    format!(
        "{:<30}{:>8.3}{:>8.3}{:>8.3}  1.00  0.00          {:>2}",
        "ATOM      1  CA  GLY A   1", x, y, z, element
    )
    .into_bytes()
}

fn text_line(s: &str) -> Vec<u8> {
    s.as_bytes().to_vec()
}

fn weight(e: &Edge) -> f32 {
    let cutoff = e.cutoff as f32 / 100000.0;
    let distance = (e.dist_sq as f64).sqrt() as f32 / 100000.0;
    (cutoff - distance) / cutoff
}

fn render(edges: &[Edge]) -> String {
    let mut out = String::new();
    for e in edges {
        out.push_str(&format!("{} {} {}\n", e.from + 1, e.to + 1, weight(e)));
    }
    out
}

#[test]
fn two_carbons_one_angstrom_apart() {
    let lines = vec![atom_line(0.0, 0.0, 0.0, "C"), atom_line(1.0, 0.0, 0.0, "C")];
    let edges = convert(&lines, 2500).unwrap();
    assert_eq!(
        edges,
        vec![Edge { from: 1, to: 0, dist_sq: 10_000_000_000, cutoff: 380_000 }]
    );
    assert_eq!(render(&edges), "2 1 0.7368421\n");
}

#[test]
fn two_carbons_ten_angstrom_apart() {
    let lines = vec![atom_line(0.0, 0.0, 0.0, "C"), atom_line(10.0, 0.0, 0.0, "C")];
    let edges = convert(&lines, 2500).unwrap();
    assert!(edges.is_empty());
    assert_eq!(render(&edges), "");
}

#[test]
fn unknown_element_fails() {
    let lines = vec![atom_line(0.0, 0.0, 0.0, "C"), atom_line(1.0, 0.0, 0.0, "Xx")];
    assert_eq!(convert(&lines, 2500), Err(PdbError::UnknownElement));
}

#[test]
fn unknown_element_in_single_atom_fails() {
    let lines = vec![atom_line(0.0, 0.0, 0.0, "Xx")];
    assert_eq!(convert(&lines, 2500), Err(PdbError::UnknownElement));
}

#[test]
fn symbols_are_case_sensitive() {
    let lines = vec![atom_line(0.0, 0.0, 0.0, "Cl"), atom_line(1.0, 0.0, 0.0, "CL")];
    assert_eq!(convert(&lines, 2500), Err(PdbError::UnknownElement));
}

#[test]
fn pair_at_cutoff_is_not_joined() {
    let lines = vec![atom_line(0.0, 0.0, 0.0, "C"), atom_line(3.8, 0.0, 0.0, "C")];
    assert!(convert(&lines, 2500).unwrap().is_empty());
}

#[test]
fn pair_just_inside_cutoff_is_joined_with_small_weight() {
    let lines = vec![atom_line(0.0, 0.0, 0.0, "C"), atom_line(3.799, 0.0, 0.0, "C")];
    let edges = convert(&lines, 2500).unwrap();
    assert_eq!(edges.len(), 1);
    assert_eq!(edges[0].dist_sq, 3799u128 * 3799 * 10_000);
    let w = weight(&edges[0]);
    assert!(w > 0.0 && w < 0.001);
}

#[test]
fn weights_lie_in_unit_interval() {
    let lines = vec![
        atom_line(0.0, 0.0, 0.0, "C"),
        atom_line(1.2, 0.3, -0.4, "N"),
        atom_line(-0.7, 2.1, 0.9, "O"),
        atom_line(0.5, -0.5, 1.5, "H"),
        atom_line(0.0, 0.0, 0.0, "S"),
    ];
    let edges = convert(&lines, 2500).unwrap();
    assert!(!edges.is_empty());
    for e in &edges {
        assert!(e.dist_sq < (e.cutoff as u128) * (e.cutoff as u128));
        let w = weight(e);
        assert!(w >= 0.0 && w <= 1.0);
        if e.dist_sq > 0 {
            assert!(w < 1.0);
        }
    }
    // the last atom shares the first one's position: weight 1
    let coincident = edges.iter().find(|e| e.from == 4 && e.to == 0).unwrap();
    assert_eq!(coincident.dist_sq, 0);
    assert_eq!(weight(coincident), 1.0);
}

#[test]
fn each_pair_is_joined_once_later_to_earlier() {
    let lines = vec![
        atom_line(0.0, 0.0, 0.0, "C"),
        atom_line(1.0, 0.0, 0.0, "C"),
        atom_line(0.0, 1.0, 0.0, "C"),
        atom_line(0.0, 0.0, 1.0, "C"),
    ];
    let edges = convert(&lines, 2500).unwrap();
    let pairs: Vec<(usize, usize)> = edges.iter().map(|e| (e.from, e.to)).collect();
    assert_eq!(pairs, vec![(1, 0), (2, 0), (2, 1), (3, 0), (3, 1), (3, 2)]);
}

#[test]
fn swapping_two_atoms_keeps_distance_and_cutoff() {
    let a = atom_line(0.0, 0.0, 0.0, "C");
    let b = atom_line(1.5, 0.5, 0.0, "O");
    let ab = convert(&vec![a.clone(), b.clone()], 2500).unwrap();
    let ba = convert(&vec![b, a], 2500).unwrap();
    assert_eq!(ab.len(), 1);
    assert_eq!(ba.len(), 1);
    assert_eq!(ab[0].dist_sq, ba[0].dist_sq);
    assert_eq!(ab[0].cutoff, ba[0].cutoff);
    assert_eq!((ab[0].from, ab[0].to), (ba[0].from, ba[0].to));
}

#[test]
fn other_lines_do_not_change_numbering() {
    let a = atom_line(0.0, 0.0, 0.0, "C");
    let b = atom_line(1.0, 0.0, 0.0, "N");
    let c = atom_line(5.0, 0.0, 0.0, "O");
    let first = vec![text_line("HEADER    TEST"), a.clone(), b.clone(), text_line(""), c.clone()];
    let second = vec![a.clone(), text_line("REMARK 1"), b.clone(), c.clone(), text_line("END")];
    assert_eq!(convert(&first, 2500).unwrap(), convert(&second, 2500).unwrap());
}

#[test]
fn reordering_atom_lines_changes_numbering() {
    let a = atom_line(0.0, 0.0, 0.0, "C");
    let b = atom_line(1.0, 0.0, 0.0, "N");
    let c = atom_line(9.0, 0.0, 0.0, "O");
    let first = convert(&vec![a.clone(), b.clone(), c.clone()], 2500).unwrap();
    let second = convert(&vec![c, a, b], 2500).unwrap();
    assert_eq!((first[0].from, first[0].to), (1, 0));
    assert_eq!((second[0].from, second[0].to), (2, 1));
}

#[test]
fn hetatm_lines_are_skipped() {
    let mut het = atom_line(0.5, 0.0, 0.0, "O");
    het[..6].copy_from_slice(b"HETATM");
    let lines = vec![atom_line(0.0, 0.0, 0.0, "C"), het, atom_line(1.0, 0.0, 0.0, "C")];
    let edges = convert(&lines, 2500).unwrap();
    assert_eq!(edges.len(), 1);
    assert_eq!((edges[0].from, edges[0].to), (1, 0));
}

#[test]
fn running_twice_gives_identical_output() {
    let lines = vec![
        atom_line(0.0, 0.0, 0.0, "C"),
        atom_line(1.1, 0.2, 0.0, "N"),
        atom_line(0.3, 1.4, 0.2, "O"),
    ];
    let once = render(&convert(&lines, 2500).unwrap());
    let twice = render(&convert(&lines, 2500).unwrap());
    assert!(!once.is_empty());
    assert_eq!(once, twice);
}

#[test]
fn malformed_atom_record_fails_the_run() {
    let mut bad = atom_line(1.0, 0.0, 0.0, "C");
    bad[32] = b'x';
    let lines = vec![atom_line(0.0, 0.0, 0.0, "C"), bad];
    assert_eq!(convert(&lines, 2500), Err(PdbError::MalformedRecord));
    let short = vec![text_line("ATOM      1  CA  GLY A   1       1.000   2.000")];
    assert_eq!(convert(&short, 2500), Err(PdbError::MalformedRecord));
}

#[test]
fn scale_changes_the_cutoff() {
    let lines = vec![atom_line(0.0, 0.0, 0.0, "C"), atom_line(2.0, 0.0, 0.0, "C")];
    assert_eq!(convert(&lines, 1000).unwrap(), vec![]);
    let edges = convert(&lines, 1500).unwrap();
    assert_eq!(edges[0].cutoff, 228_000);
    assert!(convert(&lines, 0).unwrap().is_empty());
}

#[test]
fn scale_text() {
    assert_eq!(parse_scale(b"2.5"), Some(2500));
    assert_eq!(parse_scale(b" 3 "), Some(3000));
    assert_eq!(parse_scale(b"0.125"), Some(125));
    assert_eq!(parse_scale(b".5"), Some(500));
    assert_eq!(parse_scale(b"+1."), Some(1000));
    assert_eq!(parse_scale(b"-1"), None);
    assert_eq!(parse_scale(b"1.2345"), None);
    assert_eq!(parse_scale(b"abc"), None);
    assert_eq!(parse_scale(b""), None);
    assert_eq!(parse_scale(b"."), None);
    assert_eq!(parse_scale(b"9999999999"), None);
    assert_eq!(DEFAULT_SCALE, 2500);
}
