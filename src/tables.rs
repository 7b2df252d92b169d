use vstd::prelude::*;

use crate::types::{level_index, EncodingMode, ErrorCorrectionLevel};

verus! {

/// Most digits that a numeric segment may hold, by level and version.
pub const NUMERIC_CAPACITY: [[u16; 40]; 4] = [
    // Low
    [
        41, 77, 127, 187, 255, 322, 370, 461, 552, 652,
        772, 883, 1022, 1101, 1250, 1408, 1548, 1725, 1903, 2061,
        2232, 2409, 2620, 2812, 3057, 3283, 3517, 3669, 3909, 4158,
        4417, 4686, 4965, 5253, 5529, 5836, 6153, 6479, 6743, 7089,
    ],
    // Medium
    [
        34, 63, 101, 149, 202, 255, 293, 365, 432, 513,
        604, 691, 796, 871, 991, 1082, 1212, 1346, 1500, 1600,
        1708, 1872, 2059, 2188, 2395, 2544, 2701, 2857, 3035, 3289,
        3486, 3693, 3909, 4134, 4343, 4588, 4775, 5039, 5313, 5596,
    ],
    // Quartile
    [
        27, 48, 77, 111, 144, 178, 207, 259, 312, 364,
        427, 489, 580, 621, 703, 775, 876, 948, 1063, 1159,
        1224, 1358, 1468, 1588, 1718, 1804, 1933, 2085, 2181, 2358,
        2473, 2670, 2805, 2949, 3081, 3244, 3417, 3599, 3791, 3993,
    ],
    // High
    [
        17, 34, 58, 82, 106, 139, 154, 202, 235, 288,
        331, 374, 427, 468, 530, 602, 674, 746, 813, 919,
        969, 1056, 1108, 1228, 1286, 1425, 1501, 1581, 1677, 1782,
        1897, 2022, 2157, 2301, 2361, 2524, 2625, 2735, 2927, 3057,
    ],
];

/// Most characters that a alphanumeric segment may hold, by level and version.
pub const ALPHANUMERIC_CAPACITY: [[u16; 40]; 4] = [
    // Low
    [
        25, 47, 77, 114, 154, 195, 224, 279, 335, 395,
        468, 535, 619, 667, 758, 854, 938, 1046, 1153, 1249,
        1352, 1460, 1588, 1704, 1853, 1990, 2132, 2223, 2369, 2520,
        2677, 2840, 3009, 3183, 3351, 3537, 3729, 3927, 4087, 4296,
    ],
    // Medium
    [
        20, 38, 61, 90, 122, 154, 178, 221, 262, 311,
        366, 419, 483, 528, 600, 656, 734, 816, 909, 970,
        1035, 1134, 1248, 1326, 1451, 1542, 1637, 1732, 1839, 1994,
        2113, 2238, 2369, 2506, 2632, 2780, 2894, 3054, 3220, 3391,
    ],
    // Quartile
    [
        16, 29, 47, 67, 87, 108, 125, 157, 189, 221,
        259, 296, 352, 376, 426, 470, 531, 574, 644, 702,
        742, 823, 890, 963, 1041, 1094, 1172, 1263, 1322, 1429,
        1499, 1618, 1700, 1787, 1867, 1966, 2071, 2181, 2298, 2420,
    ],
    // High
    [
        10, 20, 35, 50, 64, 84, 93, 122, 143, 174,
        200, 227, 259, 283, 321, 365, 408, 452, 493, 557,
        587, 640, 672, 744, 779, 864, 910, 958, 1016, 1080,
        1150, 1226, 1307, 1394, 1431, 1530, 1591, 1658, 1774, 1852,
    ],
];

/// Most bytes that a byte segment may hold, by level and version.
pub const BYTE_CAPACITY: [[u16; 40]; 4] = [
    // Low
    [
        17, 32, 53, 78, 106, 134, 154, 192, 230, 271,
        321, 367, 425, 458, 520, 586, 644, 718, 792, 858,
        929, 1003, 1091, 1171, 1273, 1367, 1465, 1528, 1628, 1732,
        1840, 1952, 2068, 2188, 2303, 2431, 2563, 2699, 2809, 2953,
    ],
    // Medium
    [
        14, 26, 42, 62, 84, 106, 122, 152, 180, 213,
        251, 287, 331, 362, 412, 450, 504, 560, 624, 666,
        711, 779, 857, 911, 997, 1059, 1125, 1190, 1264, 1370,
        1452, 1538, 1628, 1722, 1809, 1911, 1989, 2099, 2213, 2331,
    ],
    // Quartile
    [
        11, 20, 32, 46, 60, 74, 86, 108, 130, 151,
        177, 203, 241, 258, 292, 322, 364, 394, 442, 482,
        509, 565, 611, 661, 715, 751, 805, 868, 908, 982,
        1030, 1112, 1168, 1228, 1283, 1351, 1423, 1499, 1579, 1663,
    ],
    // High
    [
        7, 14, 24, 34, 44, 58, 64, 84, 98, 119,
        137, 155, 177, 194, 220, 250, 280, 310, 338, 382,
        403, 439, 461, 511, 535, 593, 625, 658, 698, 742,
        790, 842, 898, 958, 983, 1051, 1093, 1139, 1219, 1273,
    ],
];

/// Most kanji characters that a kanji segment may hold, by level and version.
pub const KANJI_CAPACITY: [[u16; 40]; 4] = [
    // Low
    [
        10, 20, 32, 48, 65, 82, 95, 118, 141, 167,
        198, 226, 262, 282, 320, 361, 397, 442, 488, 528,
        572, 618, 672, 721, 784, 842, 902, 940, 1002, 1066,
        1132, 1201, 1273, 1347, 1417, 1496, 1577, 1661, 1729, 1817,
    ],
    // Medium
    [
        8, 16, 26, 38, 52, 65, 75, 93, 111, 131,
        155, 177, 204, 223, 254, 277, 310, 345, 384, 410,
        438, 480, 528, 561, 614, 652, 692, 732, 778, 843,
        894, 947, 1002, 1060, 1113, 1176, 1224, 1292, 1362, 1435,
    ],
    // Quartile
    [
        7, 12, 20, 28, 37, 45, 53, 66, 80, 93,
        109, 125, 149, 159, 180, 198, 224, 243, 272, 297,
        314, 348, 376, 407, 440, 462, 496, 534, 559, 604,
        634, 684, 719, 756, 790, 832, 876, 923, 972, 1024,
    ],
    // High
    [
        4, 8, 15, 21, 27, 36, 39, 52, 60, 74,
        85, 96, 109, 120, 136, 154, 173, 191, 208, 235,
        248, 270, 284, 315, 330, 365, 385, 405, 430, 457,
        486, 518, 553, 590, 605, 647, 673, 701, 750, 784,
    ],
];

/// Data codewords of a symbol, by level and version.
pub const DATA_CODEWORDS: [[u16; 40]; 4] = [
    // Low
    [
        19, 34, 55, 80, 108, 136, 156, 194, 232, 274,
        324, 370, 428, 461, 523, 589, 647, 721, 795, 861,
        932, 1006, 1094, 1174, 1276, 1370, 1468, 1531, 1631, 1735,
        1843, 1955, 2071, 2191, 2306, 2434, 2566, 2702, 2812, 2956,
    ],
    // Medium
    [
        16, 28, 44, 64, 86, 108, 124, 154, 182, 216,
        254, 290, 334, 365, 415, 453, 507, 563, 627, 669,
        714, 782, 860, 914, 1000, 1062, 1128, 1193, 1267, 1373,
        1455, 1541, 1631, 1725, 1812, 1914, 1992, 2102, 2216, 2334,
    ],
    // Quartile
    [
        13, 22, 34, 48, 62, 76, 88, 110, 132, 154,
        180, 206, 244, 261, 295, 325, 367, 397, 445, 485,
        512, 568, 614, 664, 718, 754, 808, 871, 911, 985,
        1033, 1115, 1171, 1231, 1286, 1354, 1426, 1502, 1582, 1666,
    ],
    // High
    [
        9, 16, 26, 36, 46, 60, 66, 86, 100, 122,
        140, 158, 180, 197, 223, 253, 283, 313, 341, 385,
        406, 442, 464, 514, 538, 596, 628, 661, 701, 745,
        793, 845, 901, 961, 986, 1054, 1096, 1142, 1222, 1276,
    ],
];

/// Error-correction codewords of each block, by level and version.
pub const EC_CODEWORDS_PER_BLOCK: [[u8; 40]; 4] = [
    // Low
    [
        7, 10, 15, 20, 26, 18, 20, 24, 30, 18,
        20, 24, 26, 30, 22, 24, 28, 30, 28, 28,
        28, 28, 30, 30, 26, 28, 30, 30, 30, 30,
        30, 30, 30, 30, 30, 30, 30, 30, 30, 30,
    ],
    // Medium
    [
        10, 16, 26, 18, 24, 16, 18, 22, 22, 26,
        30, 22, 22, 24, 24, 28, 28, 26, 26, 26,
        26, 28, 28, 28, 28, 28, 28, 28, 28, 28,
        28, 28, 28, 28, 28, 28, 28, 28, 28, 28,
    ],
    // Quartile
    [
        13, 22, 18, 26, 18, 24, 18, 22, 20, 24,
        28, 26, 24, 20, 30, 24, 28, 28, 26, 30,
        28, 30, 30, 30, 30, 28, 30, 30, 30, 30,
        30, 30, 30, 30, 30, 30, 30, 30, 30, 30,
    ],
    // High
    [
        17, 28, 22, 16, 22, 28, 26, 26, 24, 28,
        24, 28, 22, 24, 24, 30, 28, 28, 26, 28,
        30, 24, 30, 30, 30, 30, 30, 30, 30, 30,
        30, 30, 30, 30, 30, 30, 30, 30, 30, 30,
    ],
];

/// Block layout by level and version: (blocks in group one, codewords in each of them,
/// blocks in group two, codewords in each of them).
pub const GROUP_LAYOUT: [[(u8, u8, u8, u8); 40]; 4] = [
    // Low
    [
        (1, 19, 0, 0), (1, 34, 0, 0), (1, 55, 0, 0), (1, 80, 0, 0), (1, 108, 0, 0),
        (2, 68, 0, 0), (2, 78, 0, 0), (2, 97, 0, 0), (2, 116, 0, 0), (2, 68, 2, 69),
        (4, 81, 0, 0), (2, 92, 2, 93), (4, 107, 0, 0), (3, 115, 1, 116), (5, 87, 1, 88),
        (5, 98, 1, 99), (1, 107, 5, 108), (5, 120, 1, 121), (3, 113, 4, 114), (3, 107, 5, 108),
        (4, 116, 4, 117), (2, 111, 7, 112), (4, 121, 5, 122), (6, 117, 4, 118), (8, 106, 4, 107),
        (10, 114, 2, 115), (8, 122, 4, 123), (3, 117, 10, 118), (7, 116, 7, 117), (5, 115, 10, 116),
        (13, 115, 3, 116), (17, 115, 0, 0), (17, 115, 1, 116), (13, 115, 6, 116), (12, 121, 7, 122),
        (6, 121, 14, 122), (17, 122, 4, 123), (4, 122, 18, 123), (20, 117, 4, 118), (19, 118, 6, 119),
    ],
    // Medium
    [
        (1, 16, 0, 0), (1, 28, 0, 0), (1, 44, 0, 0), (2, 32, 0, 0), (2, 43, 0, 0),
        (4, 27, 0, 0), (4, 31, 0, 0), (2, 38, 2, 39), (3, 36, 2, 37), (4, 43, 1, 44),
        (1, 50, 4, 51), (6, 36, 2, 37), (8, 37, 1, 38), (4, 40, 5, 41), (5, 41, 5, 42),
        (7, 45, 3, 46), (10, 46, 1, 47), (9, 43, 4, 44), (3, 44, 11, 45), (3, 41, 13, 42),
        (17, 42, 0, 0), (17, 46, 0, 0), (4, 47, 14, 48), (6, 45, 14, 46), (8, 47, 13, 48),
        (19, 46, 4, 47), (22, 45, 3, 46), (3, 45, 23, 46), (21, 45, 7, 46), (19, 47, 10, 48),
        (2, 46, 29, 47), (10, 46, 23, 47), (14, 46, 21, 47), (14, 46, 23, 47), (12, 47, 26, 48),
        (6, 47, 34, 48), (29, 46, 14, 47), (13, 46, 32, 47), (40, 47, 7, 48), (18, 47, 31, 48),
    ],
    // Quartile
    [
        (1, 13, 0, 0), (1, 22, 0, 0), (2, 17, 0, 0), (2, 24, 0, 0), (2, 15, 2, 16),
        (4, 19, 0, 0), (2, 14, 4, 15), (4, 18, 2, 19), (4, 16, 4, 17), (6, 19, 2, 20),
        (4, 22, 4, 23), (4, 20, 6, 21), (8, 20, 4, 21), (11, 16, 5, 17), (5, 24, 7, 25),
        (15, 19, 2, 20), (1, 22, 15, 23), (17, 22, 1, 23), (17, 21, 4, 22), (15, 24, 5, 25),
        (17, 22, 6, 23), (7, 24, 16, 25), (11, 24, 14, 25), (11, 24, 16, 25), (7, 24, 22, 25),
        (28, 22, 6, 23), (8, 23, 26, 24), (4, 24, 31, 25), (1, 23, 37, 24), (15, 24, 25, 25),
        (42, 24, 1, 25), (10, 24, 35, 25), (29, 24, 19, 25), (44, 24, 7, 25), (39, 24, 14, 25),
        (46, 24, 10, 25), (49, 24, 10, 25), (48, 24, 14, 25), (43, 24, 22, 25), (34, 24, 34, 25),
    ],
    // High
    [
        (1, 9, 0, 0), (1, 16, 0, 0), (2, 13, 0, 0), (4, 9, 0, 0), (2, 11, 2, 12),
        (4, 15, 0, 0), (4, 13, 1, 14), (4, 14, 2, 15), (4, 12, 4, 13), (6, 15, 2, 16),
        (3, 12, 8, 13), (7, 14, 4, 15), (12, 11, 4, 12), (11, 12, 5, 13), (11, 12, 7, 13),
        (3, 15, 13, 16), (2, 14, 17, 15), (2, 14, 19, 15), (9, 13, 16, 14), (15, 15, 10, 16),
        (19, 16, 6, 17), (34, 13, 0, 0), (16, 15, 14, 16), (30, 16, 2, 17), (22, 15, 13, 16),
        (33, 16, 4, 17), (12, 15, 28, 16), (11, 15, 31, 16), (19, 15, 26, 16), (23, 15, 25, 16),
        (23, 15, 28, 16), (19, 15, 35, 16), (11, 15, 46, 16), (59, 16, 1, 17), (22, 15, 41, 16),
        (2, 15, 64, 16), (24, 15, 46, 16), (42, 15, 32, 16), (10, 15, 67, 16), (20, 15, 61, 16),
    ],
];

/// Characters (digits, bytes, kanji) that a segment of `mode` may hold in version `v`.
pub open spec fn capacity(mode: EncodingMode, level: ErrorCorrectionLevel, v: int) -> int {
    let row = level_index(level);
    match mode {
        EncodingMode::Numeric => NUMERIC_CAPACITY@[row]@[v - 1] as int,
        EncodingMode::Alphanumeric => ALPHANUMERIC_CAPACITY@[row]@[v - 1] as int,
        EncodingMode::Byte => BYTE_CAPACITY@[row]@[v - 1] as int,
        EncodingMode::Kanji => KANJI_CAPACITY@[row]@[v - 1] as int,
    }
}

/// Data codewords of version `v` at `level`.
pub open spec fn data_codewords(level: ErrorCorrectionLevel, v: int) -> int {
    DATA_CODEWORDS@[level_index(level)]@[v - 1] as int
}

/// Data bits of version `v` at `level`: the exact length of the assembled bit stream.
pub open spec fn capacity_bits(level: ErrorCorrectionLevel, v: int) -> int {
    8 * data_codewords(level, v)
}

/// Error-correction codewords of each block of version `v` at `level`.
pub open spec fn ec_per_block(level: ErrorCorrectionLevel, v: int) -> int {
    EC_CODEWORDS_PER_BLOCK@[level_index(level)]@[v - 1] as int
}

/// Block layout of version `v` at `level`.
pub open spec fn layout(level: ErrorCorrectionLevel, v: int) -> (u8, u8, u8, u8) {
    GROUP_LAYOUT@[level_index(level)]@[v - 1]
}

/// Width of the character-count indicator, by mode and version band.
pub open spec fn cci_width(mode: EncodingMode, v: int) -> int {
    if v <= 9 {
        match mode {
            EncodingMode::Numeric => 10,
            EncodingMode::Alphanumeric => 9,
            EncodingMode::Byte => 8,
            EncodingMode::Kanji => 8,
        }
    } else if v <= 26 {
        match mode {
            EncodingMode::Numeric => 12,
            EncodingMode::Alphanumeric => 11,
            EncodingMode::Byte => 16,
            EncodingMode::Kanji => 10,
        }
    } else {
        match mode {
            EncodingMode::Numeric => 14,
            EncodingMode::Alphanumeric => 13,
            EncodingMode::Byte => 16,
            EncodingMode::Kanji => 12,
        }
    }
}

/// Row of `level` in the tables.
pub fn level_row(level: ErrorCorrectionLevel) -> (r: usize)
    ensures
        r == level_index(level),
{
    match level {
        ErrorCorrectionLevel::Low => 0,
        ErrorCorrectionLevel::Medium => 1,
        ErrorCorrectionLevel::Quartile => 2,
        ErrorCorrectionLevel::High => 3,
    }
}

/// Looks up `capacity(mode, level, v)`.
pub fn capacity_of(mode: EncodingMode, level: ErrorCorrectionLevel, v: usize) -> (r: u16)
    requires
        1 <= v <= 40,
    ensures
        r == capacity(mode, level, v as int),
{
    let row = level_row(level);
    match mode {
        EncodingMode::Numeric => NUMERIC_CAPACITY[row][v - 1],
        EncodingMode::Alphanumeric => ALPHANUMERIC_CAPACITY[row][v - 1],
        EncodingMode::Byte => BYTE_CAPACITY[row][v - 1],
        EncodingMode::Kanji => KANJI_CAPACITY[row][v - 1],
    }
}

/// Looks up `data_codewords(level, v)`.
pub fn data_codewords_of(level: ErrorCorrectionLevel, v: usize) -> (r: u16)
    requires
        1 <= v <= 40,
    ensures
        r == data_codewords(level, v as int),
{
    DATA_CODEWORDS[level_row(level)][v - 1]
}

/// Looks up `ec_per_block(level, v)`.
pub fn ec_per_block_of(level: ErrorCorrectionLevel, v: usize) -> (r: u8)
    requires
        1 <= v <= 40,
    ensures
        r == ec_per_block(level, v as int),
{
    EC_CODEWORDS_PER_BLOCK[level_row(level)][v - 1]
}

/// Looks up `layout(level, v)`.
pub fn layout_of(level: ErrorCorrectionLevel, v: usize) -> (r: (u8, u8, u8, u8))
    requires
        1 <= v <= 40,
    ensures
        r == layout(level, v as int),
{
    GROUP_LAYOUT[level_row(level)][v - 1]
}

} // verus!
