use vstd::prelude::*;

use crate::surface::{
    cell_at, configuration, cube_configuration, lemma_cell_of, lemma_flat_configuration, straddles, MAX_CELLS,
};

verus! {

/// Marching-cubes triangulation of cell configuration `c`: the cell edges,
/// three per triangle, whose midpoints are the triangle's vertices. Corner
/// and edge numbers follow `corner` and `edge_corners`.
pub open spec fn tri_table(c: u8) -> Seq<u8> {
    match c {
        0 => Seq::empty(),
        1 => seq![0u8, 8u8, 3u8],
        2 => seq![0u8, 1u8, 9u8],
        3 => seq![1u8, 8u8, 3u8, 9u8, 8u8, 1u8],
        4 => seq![1u8, 2u8, 10u8],
        5 => seq![0u8, 8u8, 3u8, 1u8, 2u8, 10u8],
        6 => seq![9u8, 2u8, 10u8, 0u8, 2u8, 9u8],
        7 => seq![2u8, 8u8, 3u8, 2u8, 10u8, 8u8, 10u8, 9u8, 8u8],
        8 => seq![3u8, 11u8, 2u8],
        9 => seq![0u8, 11u8, 2u8, 8u8, 11u8, 0u8],
        10 => seq![1u8, 9u8, 0u8, 2u8, 3u8, 11u8],
        11 => seq![1u8, 11u8, 2u8, 1u8, 9u8, 11u8, 9u8, 8u8, 11u8],
        12 => seq![3u8, 10u8, 1u8, 11u8, 10u8, 3u8],
        13 => seq![0u8, 10u8, 1u8, 0u8, 8u8, 10u8, 8u8, 11u8, 10u8],
        14 => seq![3u8, 9u8, 0u8, 3u8, 11u8, 9u8, 11u8, 10u8, 9u8],
        15 => seq![9u8, 8u8, 10u8, 10u8, 8u8, 11u8],
        16 => seq![4u8, 7u8, 8u8],
        17 => seq![4u8, 3u8, 0u8, 7u8, 3u8, 4u8],
        18 => seq![0u8, 1u8, 9u8, 8u8, 4u8, 7u8],
        19 => seq![4u8, 1u8, 9u8, 4u8, 7u8, 1u8, 7u8, 3u8, 1u8],
        20 => seq![1u8, 2u8, 10u8, 8u8, 4u8, 7u8],
        21 => seq![3u8, 4u8, 7u8, 3u8, 0u8, 4u8, 1u8, 2u8, 10u8],
        22 => seq![9u8, 2u8, 10u8, 9u8, 0u8, 2u8, 8u8, 4u8, 7u8],
        23 => seq![2u8, 10u8, 9u8, 2u8, 9u8, 7u8, 2u8, 7u8, 3u8, 7u8, 9u8, 4u8],
        24 => seq![8u8, 4u8, 7u8, 3u8, 11u8, 2u8],
        25 => seq![11u8, 4u8, 7u8, 11u8, 2u8, 4u8, 2u8, 0u8, 4u8],
        26 => seq![9u8, 0u8, 1u8, 8u8, 4u8, 7u8, 2u8, 3u8, 11u8],
        27 => seq![4u8, 7u8, 11u8, 9u8, 4u8, 11u8, 9u8, 11u8, 2u8, 9u8, 2u8, 1u8],
        28 => seq![3u8, 10u8, 1u8, 3u8, 11u8, 10u8, 7u8, 8u8, 4u8],
        29 => seq![1u8, 11u8, 10u8, 1u8, 4u8, 11u8, 1u8, 0u8, 4u8, 7u8, 11u8, 4u8],
        30 => seq![4u8, 7u8, 8u8, 9u8, 0u8, 11u8, 9u8, 11u8, 10u8, 11u8, 0u8, 3u8],
        31 => seq![4u8, 7u8, 11u8, 4u8, 11u8, 9u8, 9u8, 11u8, 10u8],
        32 => seq![9u8, 5u8, 4u8],
        33 => seq![9u8, 5u8, 4u8, 0u8, 8u8, 3u8],
        34 => seq![0u8, 5u8, 4u8, 1u8, 5u8, 0u8],
        35 => seq![8u8, 5u8, 4u8, 8u8, 3u8, 5u8, 3u8, 1u8, 5u8],
        36 => seq![1u8, 2u8, 10u8, 9u8, 5u8, 4u8],
        37 => seq![3u8, 0u8, 8u8, 1u8, 2u8, 10u8, 4u8, 9u8, 5u8],
        38 => seq![5u8, 2u8, 10u8, 5u8, 4u8, 2u8, 4u8, 0u8, 2u8],
        39 => seq![2u8, 10u8, 5u8, 3u8, 2u8, 5u8, 3u8, 5u8, 4u8, 3u8, 4u8, 8u8],
        40 => seq![9u8, 5u8, 4u8, 2u8, 3u8, 11u8],
        41 => seq![0u8, 11u8, 2u8, 0u8, 8u8, 11u8, 4u8, 9u8, 5u8],
        42 => seq![0u8, 5u8, 4u8, 0u8, 1u8, 5u8, 2u8, 3u8, 11u8],
        43 => seq![2u8, 1u8, 5u8, 2u8, 5u8, 8u8, 2u8, 8u8, 11u8, 4u8, 8u8, 5u8],
        44 => seq![10u8, 3u8, 11u8, 10u8, 1u8, 3u8, 9u8, 5u8, 4u8],
        45 => seq![4u8, 9u8, 5u8, 0u8, 8u8, 1u8, 8u8, 10u8, 1u8, 8u8, 11u8, 10u8],
        46 => seq![5u8, 4u8, 0u8, 5u8, 0u8, 11u8, 5u8, 11u8, 10u8, 11u8, 0u8, 3u8],
        47 => seq![5u8, 4u8, 8u8, 5u8, 8u8, 10u8, 10u8, 8u8, 11u8],
        48 => seq![9u8, 7u8, 8u8, 5u8, 7u8, 9u8],
        49 => seq![9u8, 3u8, 0u8, 9u8, 5u8, 3u8, 5u8, 7u8, 3u8],
        50 => seq![0u8, 7u8, 8u8, 0u8, 1u8, 7u8, 1u8, 5u8, 7u8],
        51 => seq![1u8, 5u8, 3u8, 3u8, 5u8, 7u8],
        52 => seq![9u8, 7u8, 8u8, 9u8, 5u8, 7u8, 10u8, 1u8, 2u8],
        53 => seq![10u8, 1u8, 2u8, 9u8, 5u8, 0u8, 5u8, 3u8, 0u8, 5u8, 7u8, 3u8],
        54 => seq![8u8, 0u8, 2u8, 8u8, 2u8, 5u8, 8u8, 5u8, 7u8, 10u8, 5u8, 2u8],
        55 => seq![2u8, 10u8, 5u8, 2u8, 5u8, 3u8, 3u8, 5u8, 7u8],
        56 => seq![7u8, 9u8, 5u8, 7u8, 8u8, 9u8, 3u8, 11u8, 2u8],
        57 => seq![9u8, 5u8, 7u8, 9u8, 7u8, 2u8, 9u8, 2u8, 0u8, 2u8, 7u8, 11u8],
        58 => seq![2u8, 3u8, 11u8, 0u8, 1u8, 8u8, 1u8, 7u8, 8u8, 1u8, 5u8, 7u8],
        59 => seq![11u8, 2u8, 1u8, 11u8, 1u8, 7u8, 7u8, 1u8, 5u8],
        60 => seq![9u8, 5u8, 8u8, 8u8, 5u8, 7u8, 10u8, 1u8, 3u8, 10u8, 3u8, 11u8],
        61 => seq![5u8, 7u8, 0u8, 5u8, 0u8, 9u8, 7u8, 11u8, 0u8, 1u8, 0u8, 10u8, 11u8, 10u8, 0u8],
        62 => seq![11u8, 10u8, 0u8, 11u8, 0u8, 3u8, 10u8, 5u8, 0u8, 8u8, 0u8, 7u8, 5u8, 7u8, 0u8],
        63 => seq![11u8, 10u8, 5u8, 7u8, 11u8, 5u8],
        64 => seq![10u8, 6u8, 5u8],
        65 => seq![0u8, 8u8, 3u8, 5u8, 10u8, 6u8],
        66 => seq![9u8, 0u8, 1u8, 5u8, 10u8, 6u8],
        67 => seq![1u8, 8u8, 3u8, 1u8, 9u8, 8u8, 5u8, 10u8, 6u8],
        68 => seq![1u8, 6u8, 5u8, 2u8, 6u8, 1u8],
        69 => seq![1u8, 6u8, 5u8, 1u8, 2u8, 6u8, 3u8, 0u8, 8u8],
        70 => seq![9u8, 6u8, 5u8, 9u8, 0u8, 6u8, 0u8, 2u8, 6u8],
        71 => seq![5u8, 9u8, 8u8, 5u8, 8u8, 2u8, 5u8, 2u8, 6u8, 3u8, 2u8, 8u8],
        72 => seq![2u8, 3u8, 11u8, 10u8, 6u8, 5u8],
        73 => seq![11u8, 0u8, 8u8, 11u8, 2u8, 0u8, 10u8, 6u8, 5u8],
        74 => seq![0u8, 1u8, 9u8, 2u8, 3u8, 11u8, 5u8, 10u8, 6u8],
        75 => seq![5u8, 10u8, 6u8, 1u8, 9u8, 2u8, 9u8, 11u8, 2u8, 9u8, 8u8, 11u8],
        76 => seq![6u8, 3u8, 11u8, 6u8, 5u8, 3u8, 5u8, 1u8, 3u8],
        77 => seq![0u8, 8u8, 11u8, 0u8, 11u8, 5u8, 0u8, 5u8, 1u8, 5u8, 11u8, 6u8],
        78 => seq![3u8, 11u8, 6u8, 0u8, 3u8, 6u8, 0u8, 6u8, 5u8, 0u8, 5u8, 9u8],
        79 => seq![6u8, 5u8, 9u8, 6u8, 9u8, 11u8, 11u8, 9u8, 8u8],
        80 => seq![5u8, 10u8, 6u8, 4u8, 7u8, 8u8],
        81 => seq![4u8, 3u8, 0u8, 4u8, 7u8, 3u8, 6u8, 5u8, 10u8],
        82 => seq![1u8, 9u8, 0u8, 5u8, 10u8, 6u8, 8u8, 4u8, 7u8],
        83 => seq![10u8, 6u8, 5u8, 1u8, 9u8, 7u8, 1u8, 7u8, 3u8, 7u8, 9u8, 4u8],
        84 => seq![6u8, 1u8, 2u8, 6u8, 5u8, 1u8, 4u8, 7u8, 8u8],
        85 => seq![1u8, 2u8, 5u8, 5u8, 2u8, 6u8, 3u8, 0u8, 4u8, 3u8, 4u8, 7u8],
        86 => seq![8u8, 4u8, 7u8, 9u8, 0u8, 5u8, 0u8, 6u8, 5u8, 0u8, 2u8, 6u8],
        87 => seq![7u8, 3u8, 9u8, 7u8, 9u8, 4u8, 3u8, 2u8, 9u8, 5u8, 9u8, 6u8, 2u8, 6u8, 9u8],
        88 => seq![3u8, 11u8, 2u8, 7u8, 8u8, 4u8, 10u8, 6u8, 5u8],
        89 => seq![5u8, 10u8, 6u8, 4u8, 7u8, 2u8, 4u8, 2u8, 0u8, 2u8, 7u8, 11u8],
        90 => seq![0u8, 1u8, 9u8, 4u8, 7u8, 8u8, 2u8, 3u8, 11u8, 5u8, 10u8, 6u8],
        91 => seq![9u8, 2u8, 1u8, 9u8, 11u8, 2u8, 9u8, 4u8, 11u8, 7u8, 11u8, 4u8, 5u8, 10u8, 6u8],
        92 => seq![8u8, 4u8, 7u8, 3u8, 11u8, 5u8, 3u8, 5u8, 1u8, 5u8, 11u8, 6u8],
        93 => seq![5u8, 1u8, 11u8, 5u8, 11u8, 6u8, 1u8, 0u8, 11u8, 7u8, 11u8, 4u8, 0u8, 4u8, 11u8],
        94 => seq![0u8, 5u8, 9u8, 0u8, 6u8, 5u8, 0u8, 3u8, 6u8, 11u8, 6u8, 3u8, 8u8, 4u8, 7u8],
        95 => seq![6u8, 5u8, 9u8, 6u8, 9u8, 11u8, 4u8, 7u8, 9u8, 7u8, 11u8, 9u8],
        96 => seq![10u8, 4u8, 9u8, 6u8, 4u8, 10u8],
        97 => seq![4u8, 10u8, 6u8, 4u8, 9u8, 10u8, 0u8, 8u8, 3u8],
        98 => seq![10u8, 0u8, 1u8, 10u8, 6u8, 0u8, 6u8, 4u8, 0u8],
        99 => seq![8u8, 3u8, 1u8, 8u8, 1u8, 6u8, 8u8, 6u8, 4u8, 6u8, 1u8, 10u8],
        100 => seq![1u8, 4u8, 9u8, 1u8, 2u8, 4u8, 2u8, 6u8, 4u8],
        101 => seq![3u8, 0u8, 8u8, 1u8, 2u8, 9u8, 2u8, 4u8, 9u8, 2u8, 6u8, 4u8],
        102 => seq![0u8, 2u8, 4u8, 4u8, 2u8, 6u8],
        103 => seq![8u8, 3u8, 2u8, 8u8, 2u8, 4u8, 4u8, 2u8, 6u8],
        104 => seq![10u8, 4u8, 9u8, 10u8, 6u8, 4u8, 11u8, 2u8, 3u8],
        105 => seq![0u8, 8u8, 2u8, 2u8, 8u8, 11u8, 4u8, 9u8, 10u8, 4u8, 10u8, 6u8],
        106 => seq![3u8, 11u8, 2u8, 0u8, 1u8, 6u8, 0u8, 6u8, 4u8, 6u8, 1u8, 10u8],
        107 => seq![6u8, 4u8, 1u8, 6u8, 1u8, 10u8, 4u8, 8u8, 1u8, 2u8, 1u8, 11u8, 8u8, 11u8, 1u8],
        108 => seq![9u8, 6u8, 4u8, 9u8, 3u8, 6u8, 9u8, 1u8, 3u8, 11u8, 6u8, 3u8],
        109 => seq![8u8, 11u8, 1u8, 8u8, 1u8, 0u8, 11u8, 6u8, 1u8, 9u8, 1u8, 4u8, 6u8, 4u8, 1u8],
        110 => seq![3u8, 11u8, 6u8, 3u8, 6u8, 0u8, 0u8, 6u8, 4u8],
        111 => seq![6u8, 4u8, 8u8, 11u8, 6u8, 8u8],
        112 => seq![7u8, 10u8, 6u8, 7u8, 8u8, 10u8, 8u8, 9u8, 10u8],
        113 => seq![0u8, 7u8, 3u8, 0u8, 10u8, 7u8, 0u8, 9u8, 10u8, 6u8, 7u8, 10u8],
        114 => seq![10u8, 6u8, 7u8, 1u8, 10u8, 7u8, 1u8, 7u8, 8u8, 1u8, 8u8, 0u8],
        115 => seq![10u8, 6u8, 7u8, 10u8, 7u8, 1u8, 1u8, 7u8, 3u8],
        116 => seq![1u8, 2u8, 6u8, 1u8, 6u8, 8u8, 1u8, 8u8, 9u8, 8u8, 6u8, 7u8],
        117 => seq![2u8, 6u8, 9u8, 2u8, 9u8, 1u8, 6u8, 7u8, 9u8, 0u8, 9u8, 3u8, 7u8, 3u8, 9u8],
        118 => seq![7u8, 8u8, 0u8, 7u8, 0u8, 6u8, 6u8, 0u8, 2u8],
        119 => seq![7u8, 3u8, 2u8, 6u8, 7u8, 2u8],
        120 => seq![2u8, 3u8, 11u8, 10u8, 6u8, 8u8, 10u8, 8u8, 9u8, 8u8, 6u8, 7u8],
        121 => seq![2u8, 0u8, 7u8, 2u8, 7u8, 11u8, 0u8, 9u8, 7u8, 6u8, 7u8, 10u8, 9u8, 10u8, 7u8],
        122 => seq![1u8, 8u8, 0u8, 1u8, 7u8, 8u8, 1u8, 10u8, 7u8, 6u8, 7u8, 10u8, 2u8, 3u8, 11u8],
        123 => seq![11u8, 2u8, 1u8, 11u8, 1u8, 7u8, 10u8, 6u8, 1u8, 6u8, 7u8, 1u8],
        124 => seq![8u8, 9u8, 6u8, 8u8, 6u8, 7u8, 9u8, 1u8, 6u8, 11u8, 6u8, 3u8, 1u8, 3u8, 6u8],
        125 => seq![0u8, 9u8, 1u8, 11u8, 6u8, 7u8],
        126 => seq![7u8, 8u8, 0u8, 7u8, 0u8, 6u8, 3u8, 11u8, 0u8, 11u8, 6u8, 0u8],
        127 => seq![7u8, 11u8, 6u8],
        128 => seq![7u8, 6u8, 11u8],
        129 => seq![3u8, 0u8, 8u8, 11u8, 7u8, 6u8],
        130 => seq![0u8, 1u8, 9u8, 11u8, 7u8, 6u8],
        131 => seq![8u8, 1u8, 9u8, 8u8, 3u8, 1u8, 11u8, 7u8, 6u8],
        132 => seq![10u8, 1u8, 2u8, 6u8, 11u8, 7u8],
        133 => seq![1u8, 2u8, 10u8, 3u8, 0u8, 8u8, 6u8, 11u8, 7u8],
        134 => seq![2u8, 9u8, 0u8, 2u8, 10u8, 9u8, 6u8, 11u8, 7u8],
        135 => seq![6u8, 11u8, 7u8, 2u8, 10u8, 3u8, 10u8, 8u8, 3u8, 10u8, 9u8, 8u8],
        136 => seq![7u8, 2u8, 3u8, 6u8, 2u8, 7u8],
        137 => seq![7u8, 0u8, 8u8, 7u8, 6u8, 0u8, 6u8, 2u8, 0u8],
        138 => seq![2u8, 7u8, 6u8, 2u8, 3u8, 7u8, 0u8, 1u8, 9u8],
        139 => seq![1u8, 6u8, 2u8, 1u8, 8u8, 6u8, 1u8, 9u8, 8u8, 8u8, 7u8, 6u8],
        140 => seq![10u8, 7u8, 6u8, 10u8, 1u8, 7u8, 1u8, 3u8, 7u8],
        141 => seq![10u8, 7u8, 6u8, 1u8, 7u8, 10u8, 1u8, 8u8, 7u8, 1u8, 0u8, 8u8],
        142 => seq![0u8, 3u8, 7u8, 0u8, 7u8, 10u8, 0u8, 10u8, 9u8, 6u8, 10u8, 7u8],
        143 => seq![7u8, 6u8, 10u8, 7u8, 10u8, 8u8, 8u8, 10u8, 9u8],
        144 => seq![6u8, 8u8, 4u8, 11u8, 8u8, 6u8],
        145 => seq![3u8, 6u8, 11u8, 3u8, 0u8, 6u8, 0u8, 4u8, 6u8],
        146 => seq![8u8, 6u8, 11u8, 8u8, 4u8, 6u8, 9u8, 0u8, 1u8],
        147 => seq![9u8, 4u8, 6u8, 9u8, 6u8, 3u8, 9u8, 3u8, 1u8, 11u8, 3u8, 6u8],
        148 => seq![6u8, 8u8, 4u8, 6u8, 11u8, 8u8, 2u8, 10u8, 1u8],
        149 => seq![1u8, 2u8, 10u8, 3u8, 0u8, 11u8, 0u8, 6u8, 11u8, 0u8, 4u8, 6u8],
        150 => seq![4u8, 11u8, 8u8, 4u8, 6u8, 11u8, 0u8, 2u8, 9u8, 2u8, 10u8, 9u8],
        151 => seq![10u8, 9u8, 3u8, 10u8, 3u8, 2u8, 9u8, 4u8, 3u8, 11u8, 3u8, 6u8, 4u8, 6u8, 3u8],
        152 => seq![8u8, 2u8, 3u8, 8u8, 4u8, 2u8, 4u8, 6u8, 2u8],
        153 => seq![0u8, 4u8, 2u8, 4u8, 6u8, 2u8],
        154 => seq![1u8, 9u8, 0u8, 2u8, 3u8, 4u8, 2u8, 4u8, 6u8, 4u8, 3u8, 8u8],
        155 => seq![1u8, 9u8, 4u8, 1u8, 4u8, 2u8, 2u8, 4u8, 6u8],
        156 => seq![8u8, 1u8, 3u8, 8u8, 6u8, 1u8, 8u8, 4u8, 6u8, 6u8, 10u8, 1u8],
        157 => seq![10u8, 1u8, 0u8, 10u8, 0u8, 6u8, 6u8, 0u8, 4u8],
        158 => seq![4u8, 6u8, 3u8, 4u8, 3u8, 8u8, 6u8, 10u8, 3u8, 0u8, 3u8, 9u8, 10u8, 9u8, 3u8],
        159 => seq![10u8, 9u8, 4u8, 6u8, 10u8, 4u8],
        160 => seq![4u8, 9u8, 5u8, 7u8, 6u8, 11u8],
        161 => seq![0u8, 8u8, 3u8, 4u8, 9u8, 5u8, 11u8, 7u8, 6u8],
        162 => seq![5u8, 0u8, 1u8, 5u8, 4u8, 0u8, 7u8, 6u8, 11u8],
        163 => seq![11u8, 7u8, 6u8, 8u8, 3u8, 4u8, 3u8, 5u8, 4u8, 3u8, 1u8, 5u8],
        164 => seq![9u8, 5u8, 4u8, 10u8, 1u8, 2u8, 7u8, 6u8, 11u8],
        165 => seq![6u8, 11u8, 7u8, 1u8, 2u8, 10u8, 0u8, 8u8, 3u8, 4u8, 9u8, 5u8],
        166 => seq![7u8, 6u8, 11u8, 5u8, 4u8, 10u8, 4u8, 2u8, 10u8, 4u8, 0u8, 2u8],
        167 => seq![3u8, 4u8, 8u8, 3u8, 5u8, 4u8, 3u8, 2u8, 5u8, 10u8, 5u8, 2u8, 11u8, 7u8, 6u8],
        168 => seq![7u8, 2u8, 3u8, 7u8, 6u8, 2u8, 5u8, 4u8, 9u8],
        169 => seq![9u8, 5u8, 4u8, 0u8, 8u8, 6u8, 0u8, 6u8, 2u8, 6u8, 8u8, 7u8],
        170 => seq![3u8, 6u8, 2u8, 3u8, 7u8, 6u8, 1u8, 5u8, 0u8, 5u8, 4u8, 0u8],
        171 => seq![6u8, 2u8, 8u8, 6u8, 8u8, 7u8, 2u8, 1u8, 8u8, 4u8, 8u8, 5u8, 1u8, 5u8, 8u8],
        172 => seq![9u8, 5u8, 4u8, 10u8, 1u8, 6u8, 1u8, 7u8, 6u8, 1u8, 3u8, 7u8],
        173 => seq![1u8, 6u8, 10u8, 1u8, 7u8, 6u8, 1u8, 0u8, 7u8, 8u8, 7u8, 0u8, 9u8, 5u8, 4u8],
        174 => seq![4u8, 0u8, 10u8, 4u8, 10u8, 5u8, 0u8, 3u8, 10u8, 6u8, 10u8, 7u8, 3u8, 7u8, 10u8],
        175 => seq![7u8, 6u8, 10u8, 7u8, 10u8, 8u8, 5u8, 4u8, 10u8, 4u8, 8u8, 10u8],
        176 => seq![6u8, 9u8, 5u8, 6u8, 11u8, 9u8, 11u8, 8u8, 9u8],
        177 => seq![3u8, 6u8, 11u8, 0u8, 6u8, 3u8, 0u8, 5u8, 6u8, 0u8, 9u8, 5u8],
        178 => seq![0u8, 11u8, 8u8, 0u8, 5u8, 11u8, 0u8, 1u8, 5u8, 5u8, 6u8, 11u8],
        179 => seq![6u8, 11u8, 3u8, 6u8, 3u8, 5u8, 5u8, 3u8, 1u8],
        180 => seq![1u8, 2u8, 10u8, 9u8, 5u8, 11u8, 9u8, 11u8, 8u8, 11u8, 5u8, 6u8],
        181 => seq![0u8, 11u8, 3u8, 0u8, 6u8, 11u8, 0u8, 9u8, 6u8, 5u8, 6u8, 9u8, 1u8, 2u8, 10u8],
        182 => seq![11u8, 8u8, 5u8, 11u8, 5u8, 6u8, 8u8, 0u8, 5u8, 10u8, 5u8, 2u8, 0u8, 2u8, 5u8],
        183 => seq![6u8, 11u8, 3u8, 6u8, 3u8, 5u8, 2u8, 10u8, 3u8, 10u8, 5u8, 3u8],
        184 => seq![5u8, 8u8, 9u8, 5u8, 2u8, 8u8, 5u8, 6u8, 2u8, 3u8, 8u8, 2u8],
        185 => seq![9u8, 5u8, 6u8, 9u8, 6u8, 0u8, 0u8, 6u8, 2u8],
        186 => seq![1u8, 5u8, 8u8, 1u8, 8u8, 0u8, 5u8, 6u8, 8u8, 3u8, 8u8, 2u8, 6u8, 2u8, 8u8],
        187 => seq![1u8, 5u8, 6u8, 2u8, 1u8, 6u8],
        188 => seq![1u8, 3u8, 6u8, 1u8, 6u8, 10u8, 3u8, 8u8, 6u8, 5u8, 6u8, 9u8, 8u8, 9u8, 6u8],
        189 => seq![10u8, 1u8, 0u8, 10u8, 0u8, 6u8, 9u8, 5u8, 0u8, 5u8, 6u8, 0u8],
        190 => seq![0u8, 3u8, 8u8, 5u8, 6u8, 10u8],
        191 => seq![10u8, 5u8, 6u8],
        192 => seq![11u8, 5u8, 10u8, 7u8, 5u8, 11u8],
        193 => seq![11u8, 5u8, 10u8, 11u8, 7u8, 5u8, 8u8, 3u8, 0u8],
        194 => seq![5u8, 11u8, 7u8, 5u8, 10u8, 11u8, 1u8, 9u8, 0u8],
        195 => seq![10u8, 7u8, 5u8, 10u8, 11u8, 7u8, 9u8, 8u8, 1u8, 8u8, 3u8, 1u8],
        196 => seq![11u8, 1u8, 2u8, 11u8, 7u8, 1u8, 7u8, 5u8, 1u8],
        197 => seq![0u8, 8u8, 3u8, 1u8, 2u8, 7u8, 1u8, 7u8, 5u8, 7u8, 2u8, 11u8],
        198 => seq![9u8, 7u8, 5u8, 9u8, 2u8, 7u8, 9u8, 0u8, 2u8, 2u8, 11u8, 7u8],
        199 => seq![7u8, 5u8, 2u8, 7u8, 2u8, 11u8, 5u8, 9u8, 2u8, 3u8, 2u8, 8u8, 9u8, 8u8, 2u8],
        200 => seq![2u8, 5u8, 10u8, 2u8, 3u8, 5u8, 3u8, 7u8, 5u8],
        201 => seq![8u8, 2u8, 0u8, 8u8, 5u8, 2u8, 8u8, 7u8, 5u8, 10u8, 2u8, 5u8],
        202 => seq![9u8, 0u8, 1u8, 5u8, 10u8, 3u8, 5u8, 3u8, 7u8, 3u8, 10u8, 2u8],
        203 => seq![9u8, 8u8, 2u8, 9u8, 2u8, 1u8, 8u8, 7u8, 2u8, 10u8, 2u8, 5u8, 7u8, 5u8, 2u8],
        204 => seq![1u8, 3u8, 5u8, 3u8, 7u8, 5u8],
        205 => seq![0u8, 8u8, 7u8, 0u8, 7u8, 1u8, 1u8, 7u8, 5u8],
        206 => seq![9u8, 0u8, 3u8, 9u8, 3u8, 5u8, 5u8, 3u8, 7u8],
        207 => seq![9u8, 8u8, 7u8, 5u8, 9u8, 7u8],
        208 => seq![5u8, 8u8, 4u8, 5u8, 10u8, 8u8, 10u8, 11u8, 8u8],
        209 => seq![5u8, 0u8, 4u8, 5u8, 11u8, 0u8, 5u8, 10u8, 11u8, 11u8, 3u8, 0u8],
        210 => seq![0u8, 1u8, 9u8, 8u8, 4u8, 10u8, 8u8, 10u8, 11u8, 10u8, 4u8, 5u8],
        211 => seq![10u8, 11u8, 4u8, 10u8, 4u8, 5u8, 11u8, 3u8, 4u8, 9u8, 4u8, 1u8, 3u8, 1u8, 4u8],
        212 => seq![2u8, 5u8, 1u8, 2u8, 8u8, 5u8, 2u8, 11u8, 8u8, 4u8, 5u8, 8u8],
        213 => seq![0u8, 4u8, 11u8, 0u8, 11u8, 3u8, 4u8, 5u8, 11u8, 2u8, 11u8, 1u8, 5u8, 1u8, 11u8],
        214 => seq![0u8, 2u8, 5u8, 0u8, 5u8, 9u8, 2u8, 11u8, 5u8, 4u8, 5u8, 8u8, 11u8, 8u8, 5u8],
        215 => seq![9u8, 4u8, 5u8, 2u8, 11u8, 3u8],
        216 => seq![2u8, 5u8, 10u8, 3u8, 5u8, 2u8, 3u8, 4u8, 5u8, 3u8, 8u8, 4u8],
        217 => seq![5u8, 10u8, 2u8, 5u8, 2u8, 4u8, 4u8, 2u8, 0u8],
        218 => seq![3u8, 10u8, 2u8, 3u8, 5u8, 10u8, 3u8, 8u8, 5u8, 4u8, 5u8, 8u8, 0u8, 1u8, 9u8],
        219 => seq![5u8, 10u8, 2u8, 5u8, 2u8, 4u8, 1u8, 9u8, 2u8, 9u8, 4u8, 2u8],
        220 => seq![8u8, 4u8, 5u8, 8u8, 5u8, 3u8, 3u8, 5u8, 1u8],
        221 => seq![0u8, 4u8, 5u8, 1u8, 0u8, 5u8],
        222 => seq![8u8, 4u8, 5u8, 8u8, 5u8, 3u8, 9u8, 0u8, 5u8, 0u8, 3u8, 5u8],
        223 => seq![9u8, 4u8, 5u8],
        224 => seq![4u8, 11u8, 7u8, 4u8, 9u8, 11u8, 9u8, 10u8, 11u8],
        225 => seq![0u8, 8u8, 3u8, 4u8, 9u8, 7u8, 9u8, 11u8, 7u8, 9u8, 10u8, 11u8],
        226 => seq![1u8, 10u8, 11u8, 1u8, 11u8, 4u8, 1u8, 4u8, 0u8, 7u8, 4u8, 11u8],
        227 => seq![3u8, 1u8, 4u8, 3u8, 4u8, 8u8, 1u8, 10u8, 4u8, 7u8, 4u8, 11u8, 10u8, 11u8, 4u8],
        228 => seq![4u8, 11u8, 7u8, 9u8, 11u8, 4u8, 9u8, 2u8, 11u8, 9u8, 1u8, 2u8],
        229 => seq![9u8, 7u8, 4u8, 9u8, 11u8, 7u8, 9u8, 1u8, 11u8, 2u8, 11u8, 1u8, 0u8, 8u8, 3u8],
        230 => seq![11u8, 7u8, 4u8, 11u8, 4u8, 2u8, 2u8, 4u8, 0u8],
        231 => seq![11u8, 7u8, 4u8, 11u8, 4u8, 2u8, 8u8, 3u8, 4u8, 3u8, 2u8, 4u8],
        232 => seq![2u8, 9u8, 10u8, 2u8, 7u8, 9u8, 2u8, 3u8, 7u8, 7u8, 4u8, 9u8],
        233 => seq![9u8, 10u8, 7u8, 9u8, 7u8, 4u8, 10u8, 2u8, 7u8, 8u8, 7u8, 0u8, 2u8, 0u8, 7u8],
        234 => seq![3u8, 7u8, 10u8, 3u8, 10u8, 2u8, 7u8, 4u8, 10u8, 1u8, 10u8, 0u8, 4u8, 0u8, 10u8],
        235 => seq![1u8, 10u8, 2u8, 8u8, 7u8, 4u8],
        236 => seq![4u8, 9u8, 1u8, 4u8, 1u8, 7u8, 7u8, 1u8, 3u8],
        237 => seq![4u8, 9u8, 1u8, 4u8, 1u8, 7u8, 0u8, 8u8, 1u8, 8u8, 7u8, 1u8],
        238 => seq![4u8, 0u8, 3u8, 7u8, 4u8, 3u8],
        239 => seq![4u8, 8u8, 7u8],
        240 => seq![9u8, 10u8, 8u8, 10u8, 11u8, 8u8],
        241 => seq![3u8, 0u8, 9u8, 3u8, 9u8, 11u8, 11u8, 9u8, 10u8],
        242 => seq![0u8, 1u8, 10u8, 0u8, 10u8, 8u8, 8u8, 10u8, 11u8],
        243 => seq![3u8, 1u8, 10u8, 11u8, 3u8, 10u8],
        244 => seq![1u8, 2u8, 11u8, 1u8, 11u8, 9u8, 9u8, 11u8, 8u8],
        245 => seq![3u8, 0u8, 9u8, 3u8, 9u8, 11u8, 1u8, 2u8, 9u8, 2u8, 11u8, 9u8],
        246 => seq![0u8, 2u8, 11u8, 8u8, 0u8, 11u8],
        247 => seq![3u8, 2u8, 11u8],
        248 => seq![2u8, 3u8, 8u8, 2u8, 8u8, 10u8, 10u8, 8u8, 9u8],
        249 => seq![9u8, 10u8, 2u8, 0u8, 9u8, 2u8],
        250 => seq![2u8, 3u8, 8u8, 2u8, 8u8, 10u8, 0u8, 1u8, 8u8, 1u8, 10u8, 8u8],
        251 => seq![1u8, 10u8, 2u8],
        252 => seq![1u8, 3u8, 8u8, 9u8, 1u8, 8u8],
        253 => seq![0u8, 9u8, 1u8],
        254 => seq![0u8, 3u8, 8u8],
        _ => Seq::empty(),
    }
}

/// The triangulation row of configuration `c`.
pub fn get_triangulation(c: u8) -> (r: Vec<u8>)
    ensures
        r@ == tri_table(c),
{
    let r: Vec<u8> = match c {
        0 => vec![],
        1 => vec![0, 8, 3],
        2 => vec![0, 1, 9],
        3 => vec![1, 8, 3, 9, 8, 1],
        4 => vec![1, 2, 10],
        5 => vec![0, 8, 3, 1, 2, 10],
        6 => vec![9, 2, 10, 0, 2, 9],
        7 => vec![2, 8, 3, 2, 10, 8, 10, 9, 8],
        8 => vec![3, 11, 2],
        9 => vec![0, 11, 2, 8, 11, 0],
        10 => vec![1, 9, 0, 2, 3, 11],
        11 => vec![1, 11, 2, 1, 9, 11, 9, 8, 11],
        12 => vec![3, 10, 1, 11, 10, 3],
        13 => vec![0, 10, 1, 0, 8, 10, 8, 11, 10],
        14 => vec![3, 9, 0, 3, 11, 9, 11, 10, 9],
        15 => vec![9, 8, 10, 10, 8, 11],
        16 => vec![4, 7, 8],
        17 => vec![4, 3, 0, 7, 3, 4],
        18 => vec![0, 1, 9, 8, 4, 7],
        19 => vec![4, 1, 9, 4, 7, 1, 7, 3, 1],
        20 => vec![1, 2, 10, 8, 4, 7],
        21 => vec![3, 4, 7, 3, 0, 4, 1, 2, 10],
        22 => vec![9, 2, 10, 9, 0, 2, 8, 4, 7],
        23 => vec![2, 10, 9, 2, 9, 7, 2, 7, 3, 7, 9, 4],
        24 => vec![8, 4, 7, 3, 11, 2],
        25 => vec![11, 4, 7, 11, 2, 4, 2, 0, 4],
        26 => vec![9, 0, 1, 8, 4, 7, 2, 3, 11],
        27 => vec![4, 7, 11, 9, 4, 11, 9, 11, 2, 9, 2, 1],
        28 => vec![3, 10, 1, 3, 11, 10, 7, 8, 4],
        29 => vec![1, 11, 10, 1, 4, 11, 1, 0, 4, 7, 11, 4],
        30 => vec![4, 7, 8, 9, 0, 11, 9, 11, 10, 11, 0, 3],
        31 => vec![4, 7, 11, 4, 11, 9, 9, 11, 10],
        32 => vec![9, 5, 4],
        33 => vec![9, 5, 4, 0, 8, 3],
        34 => vec![0, 5, 4, 1, 5, 0],
        35 => vec![8, 5, 4, 8, 3, 5, 3, 1, 5],
        36 => vec![1, 2, 10, 9, 5, 4],
        37 => vec![3, 0, 8, 1, 2, 10, 4, 9, 5],
        38 => vec![5, 2, 10, 5, 4, 2, 4, 0, 2],
        39 => vec![2, 10, 5, 3, 2, 5, 3, 5, 4, 3, 4, 8],
        40 => vec![9, 5, 4, 2, 3, 11],
        41 => vec![0, 11, 2, 0, 8, 11, 4, 9, 5],
        42 => vec![0, 5, 4, 0, 1, 5, 2, 3, 11],
        43 => vec![2, 1, 5, 2, 5, 8, 2, 8, 11, 4, 8, 5],
        44 => vec![10, 3, 11, 10, 1, 3, 9, 5, 4],
        45 => vec![4, 9, 5, 0, 8, 1, 8, 10, 1, 8, 11, 10],
        46 => vec![5, 4, 0, 5, 0, 11, 5, 11, 10, 11, 0, 3],
        47 => vec![5, 4, 8, 5, 8, 10, 10, 8, 11],
        48 => vec![9, 7, 8, 5, 7, 9],
        49 => vec![9, 3, 0, 9, 5, 3, 5, 7, 3],
        50 => vec![0, 7, 8, 0, 1, 7, 1, 5, 7],
        51 => vec![1, 5, 3, 3, 5, 7],
        52 => vec![9, 7, 8, 9, 5, 7, 10, 1, 2],
        53 => vec![10, 1, 2, 9, 5, 0, 5, 3, 0, 5, 7, 3],
        54 => vec![8, 0, 2, 8, 2, 5, 8, 5, 7, 10, 5, 2],
        55 => vec![2, 10, 5, 2, 5, 3, 3, 5, 7],
        56 => vec![7, 9, 5, 7, 8, 9, 3, 11, 2],
        57 => vec![9, 5, 7, 9, 7, 2, 9, 2, 0, 2, 7, 11],
        58 => vec![2, 3, 11, 0, 1, 8, 1, 7, 8, 1, 5, 7],
        59 => vec![11, 2, 1, 11, 1, 7, 7, 1, 5],
        60 => vec![9, 5, 8, 8, 5, 7, 10, 1, 3, 10, 3, 11],
        61 => vec![5, 7, 0, 5, 0, 9, 7, 11, 0, 1, 0, 10, 11, 10, 0],
        62 => vec![11, 10, 0, 11, 0, 3, 10, 5, 0, 8, 0, 7, 5, 7, 0],
        63 => vec![11, 10, 5, 7, 11, 5],
        64 => vec![10, 6, 5],
        65 => vec![0, 8, 3, 5, 10, 6],
        66 => vec![9, 0, 1, 5, 10, 6],
        67 => vec![1, 8, 3, 1, 9, 8, 5, 10, 6],
        68 => vec![1, 6, 5, 2, 6, 1],
        69 => vec![1, 6, 5, 1, 2, 6, 3, 0, 8],
        70 => vec![9, 6, 5, 9, 0, 6, 0, 2, 6],
        71 => vec![5, 9, 8, 5, 8, 2, 5, 2, 6, 3, 2, 8],
        72 => vec![2, 3, 11, 10, 6, 5],
        73 => vec![11, 0, 8, 11, 2, 0, 10, 6, 5],
        74 => vec![0, 1, 9, 2, 3, 11, 5, 10, 6],
        75 => vec![5, 10, 6, 1, 9, 2, 9, 11, 2, 9, 8, 11],
        76 => vec![6, 3, 11, 6, 5, 3, 5, 1, 3],
        77 => vec![0, 8, 11, 0, 11, 5, 0, 5, 1, 5, 11, 6],
        78 => vec![3, 11, 6, 0, 3, 6, 0, 6, 5, 0, 5, 9],
        79 => vec![6, 5, 9, 6, 9, 11, 11, 9, 8],
        80 => vec![5, 10, 6, 4, 7, 8],
        81 => vec![4, 3, 0, 4, 7, 3, 6, 5, 10],
        82 => vec![1, 9, 0, 5, 10, 6, 8, 4, 7],
        83 => vec![10, 6, 5, 1, 9, 7, 1, 7, 3, 7, 9, 4],
        84 => vec![6, 1, 2, 6, 5, 1, 4, 7, 8],
        85 => vec![1, 2, 5, 5, 2, 6, 3, 0, 4, 3, 4, 7],
        86 => vec![8, 4, 7, 9, 0, 5, 0, 6, 5, 0, 2, 6],
        87 => vec![7, 3, 9, 7, 9, 4, 3, 2, 9, 5, 9, 6, 2, 6, 9],
        88 => vec![3, 11, 2, 7, 8, 4, 10, 6, 5],
        89 => vec![5, 10, 6, 4, 7, 2, 4, 2, 0, 2, 7, 11],
        90 => vec![0, 1, 9, 4, 7, 8, 2, 3, 11, 5, 10, 6],
        91 => vec![9, 2, 1, 9, 11, 2, 9, 4, 11, 7, 11, 4, 5, 10, 6],
        92 => vec![8, 4, 7, 3, 11, 5, 3, 5, 1, 5, 11, 6],
        93 => vec![5, 1, 11, 5, 11, 6, 1, 0, 11, 7, 11, 4, 0, 4, 11],
        94 => vec![0, 5, 9, 0, 6, 5, 0, 3, 6, 11, 6, 3, 8, 4, 7],
        95 => vec![6, 5, 9, 6, 9, 11, 4, 7, 9, 7, 11, 9],
        96 => vec![10, 4, 9, 6, 4, 10],
        97 => vec![4, 10, 6, 4, 9, 10, 0, 8, 3],
        98 => vec![10, 0, 1, 10, 6, 0, 6, 4, 0],
        99 => vec![8, 3, 1, 8, 1, 6, 8, 6, 4, 6, 1, 10],
        100 => vec![1, 4, 9, 1, 2, 4, 2, 6, 4],
        101 => vec![3, 0, 8, 1, 2, 9, 2, 4, 9, 2, 6, 4],
        102 => vec![0, 2, 4, 4, 2, 6],
        103 => vec![8, 3, 2, 8, 2, 4, 4, 2, 6],
        104 => vec![10, 4, 9, 10, 6, 4, 11, 2, 3],
        105 => vec![0, 8, 2, 2, 8, 11, 4, 9, 10, 4, 10, 6],
        106 => vec![3, 11, 2, 0, 1, 6, 0, 6, 4, 6, 1, 10],
        107 => vec![6, 4, 1, 6, 1, 10, 4, 8, 1, 2, 1, 11, 8, 11, 1],
        108 => vec![9, 6, 4, 9, 3, 6, 9, 1, 3, 11, 6, 3],
        109 => vec![8, 11, 1, 8, 1, 0, 11, 6, 1, 9, 1, 4, 6, 4, 1],
        110 => vec![3, 11, 6, 3, 6, 0, 0, 6, 4],
        111 => vec![6, 4, 8, 11, 6, 8],
        112 => vec![7, 10, 6, 7, 8, 10, 8, 9, 10],
        113 => vec![0, 7, 3, 0, 10, 7, 0, 9, 10, 6, 7, 10],
        114 => vec![10, 6, 7, 1, 10, 7, 1, 7, 8, 1, 8, 0],
        115 => vec![10, 6, 7, 10, 7, 1, 1, 7, 3],
        116 => vec![1, 2, 6, 1, 6, 8, 1, 8, 9, 8, 6, 7],
        117 => vec![2, 6, 9, 2, 9, 1, 6, 7, 9, 0, 9, 3, 7, 3, 9],
        118 => vec![7, 8, 0, 7, 0, 6, 6, 0, 2],
        119 => vec![7, 3, 2, 6, 7, 2],
        120 => vec![2, 3, 11, 10, 6, 8, 10, 8, 9, 8, 6, 7],
        121 => vec![2, 0, 7, 2, 7, 11, 0, 9, 7, 6, 7, 10, 9, 10, 7],
        122 => vec![1, 8, 0, 1, 7, 8, 1, 10, 7, 6, 7, 10, 2, 3, 11],
        123 => vec![11, 2, 1, 11, 1, 7, 10, 6, 1, 6, 7, 1],
        124 => vec![8, 9, 6, 8, 6, 7, 9, 1, 6, 11, 6, 3, 1, 3, 6],
        125 => vec![0, 9, 1, 11, 6, 7],
        126 => vec![7, 8, 0, 7, 0, 6, 3, 11, 0, 11, 6, 0],
        127 => vec![7, 11, 6],
        128 => vec![7, 6, 11],
        129 => vec![3, 0, 8, 11, 7, 6],
        130 => vec![0, 1, 9, 11, 7, 6],
        131 => vec![8, 1, 9, 8, 3, 1, 11, 7, 6],
        132 => vec![10, 1, 2, 6, 11, 7],
        133 => vec![1, 2, 10, 3, 0, 8, 6, 11, 7],
        134 => vec![2, 9, 0, 2, 10, 9, 6, 11, 7],
        135 => vec![6, 11, 7, 2, 10, 3, 10, 8, 3, 10, 9, 8],
        136 => vec![7, 2, 3, 6, 2, 7],
        137 => vec![7, 0, 8, 7, 6, 0, 6, 2, 0],
        138 => vec![2, 7, 6, 2, 3, 7, 0, 1, 9],
        139 => vec![1, 6, 2, 1, 8, 6, 1, 9, 8, 8, 7, 6],
        140 => vec![10, 7, 6, 10, 1, 7, 1, 3, 7],
        141 => vec![10, 7, 6, 1, 7, 10, 1, 8, 7, 1, 0, 8],
        142 => vec![0, 3, 7, 0, 7, 10, 0, 10, 9, 6, 10, 7],
        143 => vec![7, 6, 10, 7, 10, 8, 8, 10, 9],
        144 => vec![6, 8, 4, 11, 8, 6],
        145 => vec![3, 6, 11, 3, 0, 6, 0, 4, 6],
        146 => vec![8, 6, 11, 8, 4, 6, 9, 0, 1],
        147 => vec![9, 4, 6, 9, 6, 3, 9, 3, 1, 11, 3, 6],
        148 => vec![6, 8, 4, 6, 11, 8, 2, 10, 1],
        149 => vec![1, 2, 10, 3, 0, 11, 0, 6, 11, 0, 4, 6],
        150 => vec![4, 11, 8, 4, 6, 11, 0, 2, 9, 2, 10, 9],
        151 => vec![10, 9, 3, 10, 3, 2, 9, 4, 3, 11, 3, 6, 4, 6, 3],
        152 => vec![8, 2, 3, 8, 4, 2, 4, 6, 2],
        153 => vec![0, 4, 2, 4, 6, 2],
        154 => vec![1, 9, 0, 2, 3, 4, 2, 4, 6, 4, 3, 8],
        155 => vec![1, 9, 4, 1, 4, 2, 2, 4, 6],
        156 => vec![8, 1, 3, 8, 6, 1, 8, 4, 6, 6, 10, 1],
        157 => vec![10, 1, 0, 10, 0, 6, 6, 0, 4],
        158 => vec![4, 6, 3, 4, 3, 8, 6, 10, 3, 0, 3, 9, 10, 9, 3],
        159 => vec![10, 9, 4, 6, 10, 4],
        160 => vec![4, 9, 5, 7, 6, 11],
        161 => vec![0, 8, 3, 4, 9, 5, 11, 7, 6],
        162 => vec![5, 0, 1, 5, 4, 0, 7, 6, 11],
        163 => vec![11, 7, 6, 8, 3, 4, 3, 5, 4, 3, 1, 5],
        164 => vec![9, 5, 4, 10, 1, 2, 7, 6, 11],
        165 => vec![6, 11, 7, 1, 2, 10, 0, 8, 3, 4, 9, 5],
        166 => vec![7, 6, 11, 5, 4, 10, 4, 2, 10, 4, 0, 2],
        167 => vec![3, 4, 8, 3, 5, 4, 3, 2, 5, 10, 5, 2, 11, 7, 6],
        168 => vec![7, 2, 3, 7, 6, 2, 5, 4, 9],
        169 => vec![9, 5, 4, 0, 8, 6, 0, 6, 2, 6, 8, 7],
        170 => vec![3, 6, 2, 3, 7, 6, 1, 5, 0, 5, 4, 0],
        171 => vec![6, 2, 8, 6, 8, 7, 2, 1, 8, 4, 8, 5, 1, 5, 8],
        172 => vec![9, 5, 4, 10, 1, 6, 1, 7, 6, 1, 3, 7],
        173 => vec![1, 6, 10, 1, 7, 6, 1, 0, 7, 8, 7, 0, 9, 5, 4],
        174 => vec![4, 0, 10, 4, 10, 5, 0, 3, 10, 6, 10, 7, 3, 7, 10],
        175 => vec![7, 6, 10, 7, 10, 8, 5, 4, 10, 4, 8, 10],
        176 => vec![6, 9, 5, 6, 11, 9, 11, 8, 9],
        177 => vec![3, 6, 11, 0, 6, 3, 0, 5, 6, 0, 9, 5],
        178 => vec![0, 11, 8, 0, 5, 11, 0, 1, 5, 5, 6, 11],
        179 => vec![6, 11, 3, 6, 3, 5, 5, 3, 1],
        180 => vec![1, 2, 10, 9, 5, 11, 9, 11, 8, 11, 5, 6],
        181 => vec![0, 11, 3, 0, 6, 11, 0, 9, 6, 5, 6, 9, 1, 2, 10],
        182 => vec![11, 8, 5, 11, 5, 6, 8, 0, 5, 10, 5, 2, 0, 2, 5],
        183 => vec![6, 11, 3, 6, 3, 5, 2, 10, 3, 10, 5, 3],
        184 => vec![5, 8, 9, 5, 2, 8, 5, 6, 2, 3, 8, 2],
        185 => vec![9, 5, 6, 9, 6, 0, 0, 6, 2],
        186 => vec![1, 5, 8, 1, 8, 0, 5, 6, 8, 3, 8, 2, 6, 2, 8],
        187 => vec![1, 5, 6, 2, 1, 6],
        188 => vec![1, 3, 6, 1, 6, 10, 3, 8, 6, 5, 6, 9, 8, 9, 6],
        189 => vec![10, 1, 0, 10, 0, 6, 9, 5, 0, 5, 6, 0],
        190 => vec![0, 3, 8, 5, 6, 10],
        191 => vec![10, 5, 6],
        192 => vec![11, 5, 10, 7, 5, 11],
        193 => vec![11, 5, 10, 11, 7, 5, 8, 3, 0],
        194 => vec![5, 11, 7, 5, 10, 11, 1, 9, 0],
        195 => vec![10, 7, 5, 10, 11, 7, 9, 8, 1, 8, 3, 1],
        196 => vec![11, 1, 2, 11, 7, 1, 7, 5, 1],
        197 => vec![0, 8, 3, 1, 2, 7, 1, 7, 5, 7, 2, 11],
        198 => vec![9, 7, 5, 9, 2, 7, 9, 0, 2, 2, 11, 7],
        199 => vec![7, 5, 2, 7, 2, 11, 5, 9, 2, 3, 2, 8, 9, 8, 2],
        200 => vec![2, 5, 10, 2, 3, 5, 3, 7, 5],
        201 => vec![8, 2, 0, 8, 5, 2, 8, 7, 5, 10, 2, 5],
        202 => vec![9, 0, 1, 5, 10, 3, 5, 3, 7, 3, 10, 2],
        203 => vec![9, 8, 2, 9, 2, 1, 8, 7, 2, 10, 2, 5, 7, 5, 2],
        204 => vec![1, 3, 5, 3, 7, 5],
        205 => vec![0, 8, 7, 0, 7, 1, 1, 7, 5],
        206 => vec![9, 0, 3, 9, 3, 5, 5, 3, 7],
        207 => vec![9, 8, 7, 5, 9, 7],
        208 => vec![5, 8, 4, 5, 10, 8, 10, 11, 8],
        209 => vec![5, 0, 4, 5, 11, 0, 5, 10, 11, 11, 3, 0],
        210 => vec![0, 1, 9, 8, 4, 10, 8, 10, 11, 10, 4, 5],
        211 => vec![10, 11, 4, 10, 4, 5, 11, 3, 4, 9, 4, 1, 3, 1, 4],
        212 => vec![2, 5, 1, 2, 8, 5, 2, 11, 8, 4, 5, 8],
        213 => vec![0, 4, 11, 0, 11, 3, 4, 5, 11, 2, 11, 1, 5, 1, 11],
        214 => vec![0, 2, 5, 0, 5, 9, 2, 11, 5, 4, 5, 8, 11, 8, 5],
        215 => vec![9, 4, 5, 2, 11, 3],
        216 => vec![2, 5, 10, 3, 5, 2, 3, 4, 5, 3, 8, 4],
        217 => vec![5, 10, 2, 5, 2, 4, 4, 2, 0],
        218 => vec![3, 10, 2, 3, 5, 10, 3, 8, 5, 4, 5, 8, 0, 1, 9],
        219 => vec![5, 10, 2, 5, 2, 4, 1, 9, 2, 9, 4, 2],
        220 => vec![8, 4, 5, 8, 5, 3, 3, 5, 1],
        221 => vec![0, 4, 5, 1, 0, 5],
        222 => vec![8, 4, 5, 8, 5, 3, 9, 0, 5, 0, 3, 5],
        223 => vec![9, 4, 5],
        224 => vec![4, 11, 7, 4, 9, 11, 9, 10, 11],
        225 => vec![0, 8, 3, 4, 9, 7, 9, 11, 7, 9, 10, 11],
        226 => vec![1, 10, 11, 1, 11, 4, 1, 4, 0, 7, 4, 11],
        227 => vec![3, 1, 4, 3, 4, 8, 1, 10, 4, 7, 4, 11, 10, 11, 4],
        228 => vec![4, 11, 7, 9, 11, 4, 9, 2, 11, 9, 1, 2],
        229 => vec![9, 7, 4, 9, 11, 7, 9, 1, 11, 2, 11, 1, 0, 8, 3],
        230 => vec![11, 7, 4, 11, 4, 2, 2, 4, 0],
        231 => vec![11, 7, 4, 11, 4, 2, 8, 3, 4, 3, 2, 4],
        232 => vec![2, 9, 10, 2, 7, 9, 2, 3, 7, 7, 4, 9],
        233 => vec![9, 10, 7, 9, 7, 4, 10, 2, 7, 8, 7, 0, 2, 0, 7],
        234 => vec![3, 7, 10, 3, 10, 2, 7, 4, 10, 1, 10, 0, 4, 0, 10],
        235 => vec![1, 10, 2, 8, 7, 4],
        236 => vec![4, 9, 1, 4, 1, 7, 7, 1, 3],
        237 => vec![4, 9, 1, 4, 1, 7, 0, 8, 1, 8, 7, 1],
        238 => vec![4, 0, 3, 7, 4, 3],
        239 => vec![4, 8, 7],
        240 => vec![9, 10, 8, 10, 11, 8],
        241 => vec![3, 0, 9, 3, 9, 11, 11, 9, 10],
        242 => vec![0, 1, 10, 0, 10, 8, 8, 10, 11],
        243 => vec![3, 1, 10, 11, 3, 10],
        244 => vec![1, 2, 11, 1, 11, 9, 9, 11, 8],
        245 => vec![3, 0, 9, 3, 9, 11, 1, 2, 9, 2, 11, 9],
        246 => vec![0, 2, 11, 8, 0, 11],
        247 => vec![3, 2, 11],
        248 => vec![2, 3, 8, 2, 8, 10, 10, 8, 9],
        249 => vec![9, 10, 2, 0, 9, 2],
        250 => vec![2, 3, 8, 2, 8, 10, 0, 1, 8, 1, 10, 8],
        251 => vec![1, 10, 2],
        252 => vec![1, 3, 8, 9, 1, 8],
        253 => vec![0, 9, 1],
        254 => vec![0, 3, 8],
        _ => vec![],
    };
    proof {
        assert(r@ =~= tri_table(c));
    }
    r
}

/// Corner `k` of a cell, in the order of the configuration bits: the lower
/// layer `(0, 0, 0)`, `(0, 0, 1)`, `(1, 0, 1)`, `(1, 0, 0)`, then the same one
/// layer up.
pub open spec fn corner(k: u8) -> (int, int, int) {
    match k {
        0 => (0, 0, 0),
        1 => (0, 0, 1),
        2 => (1, 0, 1),
        3 => (1, 0, 0),
        4 => (0, 1, 0),
        5 => (0, 1, 1),
        6 => (1, 1, 1),
        _ => (1, 1, 0),
    }
}

/// The two corners of cell edge `e`: four edges round the lower layer, four
/// round the upper one, then four upright.
pub open spec fn edge_corners(e: u8) -> (u8, u8) {
    match e {
        0 => (0, 1),
        1 => (1, 2),
        2 => (2, 3),
        3 => (3, 0),
        4 => (4, 5),
        5 => (5, 6),
        6 => (6, 7),
        7 => (7, 4),
        8 => (0, 4),
        9 => (1, 5),
        10 => (2, 6),
        _ => (3, 7),
    }
}

/// Midpoint of edge `e` of the cell at `(x, y, z)`, in doubled lattice units.
pub open spec fn edge_point(x: int, y: int, z: int, e: u8) -> (u32, u32, u32) {
    let ca = corner(edge_corners(e).0);
    let cb = corner(edge_corners(e).1);
    ((2 * x + ca.0 + cb.0) as u32, (2 * y + ca.1 + cb.1) as u32, (2 * z + ca.2 + cb.2) as u32)
}

/// The triangles of configuration `c` in the cell at `(x, y, z)`.
pub open spec fn cell_triangles(c: u8, x: int, y: int, z: int) -> Seq<((u32, u32, u32), (u32, u32, u32), (u32, u32, u32))> {
    let row = tri_table(c);
    Seq::new(
        row.len() / 3,
        |t: int|
            (edge_point(x, y, z, row[3 * t]), edge_point(x, y, z, row[3 * t + 1]), edge_point(x, y, z, row[3 * t + 2])),
    )
}

fn edge_midpoint(x: usize, y: usize, z: usize, e: u8) -> (r: (u32, u32, u32))
    requires
        x < MAX_CELLS,
        y < MAX_CELLS,
        z < MAX_CELLS,
    ensures
        r == edge_point(x as int, y as int, z as int, e),
{
    let (a, b): (u8, u8) = match e {
        0 => (0, 1),
        1 => (1, 2),
        2 => (2, 3),
        3 => (3, 0),
        4 => (4, 5),
        5 => (5, 6),
        6 => (6, 7),
        7 => (7, 4),
        8 => (0, 4),
        9 => (1, 5),
        10 => (2, 6),
        _ => (3, 7),
    };
    let (ax, ay, az) = corner_of(a);
    let (bx, by, bz) = corner_of(b);
    ((2 * x + ax + bx) as u32, (2 * y + ay + by) as u32, (2 * z + az + bz) as u32)
}

fn corner_of(k: u8) -> (r: (usize, usize, usize))
    ensures
        r.0 as int == corner(k).0,
        r.1 as int == corner(k).1,
        r.2 as int == corner(k).2,
        r.0 <= 1 && r.1 <= 1 && r.2 <= 1,
{
    match k {
        0 => (0, 0, 0),
        1 => (0, 0, 1),
        2 => (1, 0, 1),
        3 => (1, 0, 0),
        4 => (0, 1, 0),
        5 => (0, 1, 1),
        6 => (1, 1, 1),
        _ => (1, 1, 0),
    }
}

/// Triangles of the cell at `(x, y, z)` of a lattice of side `n`: the row of
/// the cell's configuration, with each vertex at the midpoint of its edge in
/// doubled lattice units.
pub fn march_cube(n: usize, inside: &Vec<bool>, x: usize, y: usize, z: usize) -> (r: Vec<
    ((u32, u32, u32), (u32, u32, u32), (u32, u32, u32)),
>)
    requires
        2 <= n <= MAX_CELLS + 1,
        inside@.len() == n * n * n,
        x + 1 < n,
        y + 1 < n,
        z + 1 < n,
    ensures
        r@ == cell_triangles(
            configuration(inside@, n as int, x as int, y as int, z as int) as u8,
            x as int,
            y as int,
            z as int,
        ),
{
    let c = cube_configuration(n, inside, x, y, z);
    let row = get_triangulation(c);
    let ghost target = cell_triangles(c, x as int, y as int, z as int);
    let count = row.len() / 3;
    let mut out: Vec<((u32, u32, u32), (u32, u32, u32), (u32, u32, u32))> = Vec::new();
    let mut t: usize = 0;
    while t < count
        invariant
            x + 1 < n,
            y + 1 < n,
            z + 1 < n,
            n <= MAX_CELLS + 1,
            row@ == tri_table(c),
            count == row@.len() / 3,
            target == cell_triangles(c, x as int, y as int, z as int),
            t <= count,
            out@ == target.take(t as int),
        decreases count - t,
    {
        let tri = (
            edge_midpoint(x, y, z, row[3 * t]),
            edge_midpoint(x, y, z, row[3 * t + 1]),
            edge_midpoint(x, y, z, row[3 * t + 2]),
        );
        out.push(tri);
        proof {
            assert(target[t as int] == tri);
            assert(out@ =~= target.take(t + 1));
        }
        t += 1;
    }
    proof {
        assert(target.take(count as int) =~= target);
    }
    out
}

/// The `t`-th cell of a block of `c`³ cells in the scan order of marching
/// cubes: x fastest, then y, then z.
pub open spec fn scan_cell(c: int, t: int) -> (int, int, int) {
    (cell_at(c, t).2, cell_at(c, t).1, cell_at(c, t).0)
}

/// The triangles of the first `t` cells of the scan.
pub open spec fn triangles_upto(inside: Seq<bool>, n: int, t: nat) -> Seq<((u32, u32, u32), (u32, u32, u32), (u32, u32, u32))>
    decreases t,
{
    if t == 0 {
        Seq::empty()
    } else {
        let p = scan_cell(n - 1, t - 1);
        triangles_upto(inside, n, (t - 1) as nat) + cell_triangles(
            configuration(inside, n, p.0, p.1, p.2) as u8,
            p.0,
            p.1,
            p.2,
        )
    }
}

/// Marching-cubes mesh of a lattice of side `n` whose point `(x, y, z)` lies
/// on the inner side of the isovalue when `inside[(x * n + y) * n + z]`: the
/// triangles of every cell, cell after cell.
pub fn generate_mesh(n: usize, inside: &Vec<bool>) -> (r: Vec<((u32, u32, u32), (u32, u32, u32), (u32, u32, u32))>)
    requires
        2 <= n <= MAX_CELLS + 1,
        inside@.len() == n * n * n,
    ensures
        r@ == triangles_upto(inside@, n as int, ((n - 1) * (n - 1) * (n - 1)) as nat),
{
    let c = n - 1;
    let ghost ci = c as int;
    assert(c * c * c <= 129 * 129 * 129) by (nonlinear_arith)
        requires
            c <= 129,
    ;
    assert(c * c <= 129 * 129) by (nonlinear_arith)
        requires
            c <= 129,
    ;
    let total = c * c * c;
    let mut out: Vec<((u32, u32, u32), (u32, u32, u32), (u32, u32, u32))> = Vec::new();
    let mut t: usize = 0;
    while t < total
        invariant
            2 <= n <= MAX_CELLS + 1,
            c == n - 1,
            ci == c,
            inside@.len() == n * n * n,
            total == c * c * c,
            t <= total,
            out@ == triangles_upto(inside@, n as int, t as nat),
        decreases total - t,
    {
        let x = t % c;
        let y = (t / c) % c;
        let z = t / c / c;
        proof {
            lemma_cell_of(ci, t as int);
        }
        let mut tris = march_cube(n, inside, x, y, z);
        out.append(&mut tris);
        t += 1;
    }
    out
}

/// A cell whose corners all lie on one side of the isovalue gets no
/// triangles.
pub proof fn lemma_flat_cell_no_triangles(inside: Seq<bool>, n: int, x: int, y: int, z: int)
    requires
        !straddles(inside, n, x, y, z),
    ensures
        cell_triangles(configuration(inside, n, x, y, z) as u8, x, y, z).len() == 0,
{
    lemma_flat_configuration(inside, n, x, y, z);
}

} // verus!
