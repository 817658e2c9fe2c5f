//! Covalent radii of the chemical elements, keyed by element symbol.
//!
//! Radii are stored in centiångström (hundredths of an ångström), so that
//! carbon's 0.76 Å is `76`. Keys are the exact capitalised symbols: `"Cl"` is
//! known, `"CL"` is not.
use vstd::prelude::*;

verus! {

/// The covalent radius, in centiångström, of the element with symbol `sym`,
/// or `None` where the symbol is not in the table.
pub open spec fn radius_of(sym: Seq<u8>) -> Option<u32> {
    if sym.len() == 1 {
        match sym[0] {
            66 => Some(84), // B
            67 => Some(76), // C
            70 => Some(57), // F
            72 => Some(31), // H
            73 => Some(139), // I
            75 => Some(203), // K
            78 => Some(71), // N
            79 => Some(66), // O
            80 => Some(107), // P
            83 => Some(105), // S
            85 => Some(196), // U
            86 => Some(153), // V
            87 => Some(162), // W
            89 => Some(190), // Y
            _ => None,
        }
    } else if sym.len() == 2 {
        match (sym[0], sym[1]) {
            (65, 99) => Some(215), // Ac
            (65, 103) => Some(145), // Ag
            (65, 108) => Some(121), // Al
            (65, 109) => Some(180), // Am
            (65, 114) => Some(106), // Ar
            (65, 115) => Some(119), // As
            (65, 116) => Some(150), // At
            (65, 117) => Some(136), // Au
            (66, 97) => Some(215), // Ba
            (66, 101) => Some(96), // Be
            (66, 104) => Some(100), // Bh
            (66, 105) => Some(148), // Bi
            (66, 107) => Some(100), // Bk
            (66, 114) => Some(120), // Br
            (67, 97) => Some(176), // Ca
            (67, 100) => Some(144), // Cd
            (67, 101) => Some(204), // Ce
            (67, 102) => Some(100), // Cf
            (67, 108) => Some(102), // Cl
            (67, 109) => Some(169), // Cm
            (67, 111) => Some(126), // Co
            (67, 110) => Some(100), // Cn
            (67, 114) => Some(139), // Cr
            (67, 115) => Some(244), // Cs
            (67, 117) => Some(132), // Cu
            (68, 98) => Some(100), // Db
            (68, 115) => Some(100), // Ds
            (69, 114) => Some(189), // Er
            (69, 115) => Some(100), // Es
            (69, 117) => Some(198), // Eu
            (70, 101) => Some(132), // Fe
            (70, 109) => Some(100), // Fm
            (70, 114) => Some(260), // Fr
            (71, 97) => Some(122), // Ga
            (71, 100) => Some(196), // Gd
            (71, 101) => Some(120), // Ge
            (72, 101) => Some(28), // He
            (72, 102) => Some(175), // Hf
            (72, 103) => Some(132), // Hg
            (72, 111) => Some(192), // Ho
            (72, 115) => Some(100), // Hs
            (73, 110) => Some(142), // In
            (73, 114) => Some(141), // Ir
            (75, 114) => Some(116), // Kr
            (76, 97) => Some(207), // La
            (76, 105) => Some(128), // Li
            (76, 114) => Some(100), // Lr
            (76, 117) => Some(187), // Lu
            (77, 100) => Some(100), // Md
            (77, 103) => Some(141), // Mg
            (77, 110) => Some(139), // Mn
            (77, 111) => Some(154), // Mo
            (77, 116) => Some(100), // Mt
            (78, 97) => Some(166), // Na
            (78, 98) => Some(164), // Nb
            (78, 100) => Some(201), // Nd
            (78, 101) => Some(58), // Ne
            (78, 105) => Some(124), // Ni
            (78, 111) => Some(100), // No
            (78, 112) => Some(190), // Np
            (79, 115) => Some(144), // Os
            (80, 97) => Some(200), // Pa
            (80, 98) => Some(146), // Pb
            (80, 100) => Some(139), // Pd
            (80, 109) => Some(199), // Pm
            (80, 111) => Some(140), // Po
            (80, 114) => Some(203), // Pr
            (80, 116) => Some(136), // Pt
            (80, 117) => Some(187), // Pu
            (82, 97) => Some(221), // Ra
            (82, 98) => Some(220), // Rb
            (82, 101) => Some(151), // Re
            (82, 102) => Some(100), // Rf
            (82, 103) => Some(100), // Rg
            (82, 104) => Some(142), // Rh
            (82, 110) => Some(100), // Rn
            (82, 117) => Some(146), // Ru
            (83, 98) => Some(139), // Sb
            (83, 99) => Some(170), // Sc
            (83, 101) => Some(120), // Se
            (83, 103) => Some(100), // Sg
            (83, 105) => Some(111), // Si
            (83, 109) => Some(198), // Sm
            (83, 110) => Some(139), // Sn
            (83, 114) => Some(195), // Sr
            (84, 97) => Some(170), // Ta
            (84, 98) => Some(194), // Tb
            (84, 99) => Some(147), // Tc
            (84, 101) => Some(138), // Te
            (84, 104) => Some(206), // Th
            (84, 105) => Some(160), // Ti
            (84, 108) => Some(145), // Tl
            (84, 109) => Some(190), // Tm
            (88, 101) => Some(140), // Xe
            (89, 98) => Some(187), // Yb
            (90, 110) => Some(122), // Zn
            (90, 114) => Some(175), // Zr
            _ => None,
        }
    } else {
        None
    }
}

/// Whether `sym` is a key of the radius table.
pub open spec fn is_known_element(sym: Seq<u8>) -> bool {
    radius_of(sym) is Some
}

/// Every radius in the table is strictly positive and at most 2.60 Å.
pub proof fn lemma_radius_bounds(sym: Seq<u8>)
    requires
        is_known_element(sym),
    ensures
        0 < radius_of(sym)->0 <= MAX_RADIUS,
{
}

/// The largest radius in the table, in centiångström.
pub const MAX_RADIUS: u32 = 260;

/// Looks `sym` up in the radius table.
pub fn covalent_radius(sym: &[u8]) -> (r: Option<u32>)
    ensures
        r == radius_of(sym@),
{
    if sym.len() == 1 {
        match sym[0] {
            66 => Some(84), // B
            67 => Some(76), // C
            70 => Some(57), // F
            72 => Some(31), // H
            73 => Some(139), // I
            75 => Some(203), // K
            78 => Some(71), // N
            79 => Some(66), // O
            80 => Some(107), // P
            83 => Some(105), // S
            85 => Some(196), // U
            86 => Some(153), // V
            87 => Some(162), // W
            89 => Some(190), // Y
            _ => None,
        }
    } else if sym.len() == 2 {
        match (sym[0], sym[1]) {
            (65, 99) => Some(215), // Ac
            (65, 103) => Some(145), // Ag
            (65, 108) => Some(121), // Al
            (65, 109) => Some(180), // Am
            (65, 114) => Some(106), // Ar
            (65, 115) => Some(119), // As
            (65, 116) => Some(150), // At
            (65, 117) => Some(136), // Au
            (66, 97) => Some(215), // Ba
            (66, 101) => Some(96), // Be
            (66, 104) => Some(100), // Bh
            (66, 105) => Some(148), // Bi
            (66, 107) => Some(100), // Bk
            (66, 114) => Some(120), // Br
            (67, 97) => Some(176), // Ca
            (67, 100) => Some(144), // Cd
            (67, 101) => Some(204), // Ce
            (67, 102) => Some(100), // Cf
            (67, 108) => Some(102), // Cl
            (67, 109) => Some(169), // Cm
            (67, 111) => Some(126), // Co
            (67, 110) => Some(100), // Cn
            (67, 114) => Some(139), // Cr
            (67, 115) => Some(244), // Cs
            (67, 117) => Some(132), // Cu
            (68, 98) => Some(100), // Db
            (68, 115) => Some(100), // Ds
            (69, 114) => Some(189), // Er
            (69, 115) => Some(100), // Es
            (69, 117) => Some(198), // Eu
            (70, 101) => Some(132), // Fe
            (70, 109) => Some(100), // Fm
            (70, 114) => Some(260), // Fr
            (71, 97) => Some(122), // Ga
            (71, 100) => Some(196), // Gd
            (71, 101) => Some(120), // Ge
            (72, 101) => Some(28), // He
            (72, 102) => Some(175), // Hf
            (72, 103) => Some(132), // Hg
            (72, 111) => Some(192), // Ho
            (72, 115) => Some(100), // Hs
            (73, 110) => Some(142), // In
            (73, 114) => Some(141), // Ir
            (75, 114) => Some(116), // Kr
            (76, 97) => Some(207), // La
            (76, 105) => Some(128), // Li
            (76, 114) => Some(100), // Lr
            (76, 117) => Some(187), // Lu
            (77, 100) => Some(100), // Md
            (77, 103) => Some(141), // Mg
            (77, 110) => Some(139), // Mn
            (77, 111) => Some(154), // Mo
            (77, 116) => Some(100), // Mt
            (78, 97) => Some(166), // Na
            (78, 98) => Some(164), // Nb
            (78, 100) => Some(201), // Nd
            (78, 101) => Some(58), // Ne
            (78, 105) => Some(124), // Ni
            (78, 111) => Some(100), // No
            (78, 112) => Some(190), // Np
            (79, 115) => Some(144), // Os
            (80, 97) => Some(200), // Pa
            (80, 98) => Some(146), // Pb
            (80, 100) => Some(139), // Pd
            (80, 109) => Some(199), // Pm
            (80, 111) => Some(140), // Po
            (80, 114) => Some(203), // Pr
            (80, 116) => Some(136), // Pt
            (80, 117) => Some(187), // Pu
            (82, 97) => Some(221), // Ra
            (82, 98) => Some(220), // Rb
            (82, 101) => Some(151), // Re
            (82, 102) => Some(100), // Rf
            (82, 103) => Some(100), // Rg
            (82, 104) => Some(142), // Rh
            (82, 110) => Some(100), // Rn
            (82, 117) => Some(146), // Ru
            (83, 98) => Some(139), // Sb
            (83, 99) => Some(170), // Sc
            (83, 101) => Some(120), // Se
            (83, 103) => Some(100), // Sg
            (83, 105) => Some(111), // Si
            (83, 109) => Some(198), // Sm
            (83, 110) => Some(139), // Sn
            (83, 114) => Some(195), // Sr
            (84, 97) => Some(170), // Ta
            (84, 98) => Some(194), // Tb
            (84, 99) => Some(147), // Tc
            (84, 101) => Some(138), // Te
            (84, 104) => Some(206), // Th
            (84, 105) => Some(160), // Ti
            (84, 108) => Some(145), // Tl
            (84, 109) => Some(190), // Tm
            (88, 101) => Some(140), // Xe
            (89, 98) => Some(187), // Yb
            (90, 110) => Some(122), // Zn
            (90, 114) => Some(175), // Zr
            _ => None,
        }
    } else {
        None
    }
}

} // verus!
