//! The marching-cubes triangulation table: for each of the 256 corner cases,
//! up to five triangles over the twelve cube edges.
//!
//! Each row is packed into one `u64`, four bits per entry, sixteen entries:
//! entry values `0..=11` name a cube edge, `15` is the end-of-row sentinel.
//! A row is a run of whole triangles (groups of three edge entries) followed
//! by sentinels; readers stop at the first entry that names no edge.

use vstd::prelude::*;

verus! {

/// Entry `k` (sixteen per row, four bits each) of a packed row.
pub open spec fn tri_entry(row: u64, k: int) -> u64 {
    (row >> ((4 * k) as u64)) & 0xf
}

/// Entry `k` of a packed triangulation row.
pub fn tri_entry_at(row: u64, k: usize) -> (e: u64)
    requires
        k < 16,
    ensures
        e == tri_entry(row, k as int),
{
    (row >> ((4 * k) as u64)) & 0xf
}

/// The packed triangulation row for a corner case.
pub open spec fn tri_row_bits(case: u8) -> u64 {
    match case {
        0 => 0xffffffffffffffff,
        1 => 0xfffffffffffff380,
        2 => 0xfffffffffffff910,
        3 => 0xffffffffff189381,
        4 => 0xfffffffffffffa21,
        5 => 0xffffffffffa21380,
        6 => 0xffffffffff920a29,
        7 => 0xfffffff89a8a2382,
        8 => 0xfffffffffffff2b3,
        9 => 0xffffffffff0b82b0,
        10 => 0xffffffffffb32091,
        11 => 0xfffffffb89b912b1,
        12 => 0xffffffffff3ab1a3,
        13 => 0xfffffffab8a801a0,
        14 => 0xfffffff9ab9b3093,
        15 => 0xffffffffffb8aa89,
        16 => 0xfffffffffffff874,
        17 => 0xffffffffff437034,
        18 => 0xffffffffff748910,
        19 => 0xfffffff137174914,
        20 => 0xffffffffff748a21,
        21 => 0xfffffffa21403743,
        22 => 0xfffffff748209a29,
        23 => 0xffff4973727929a2,
        24 => 0xffffffffff2b3748,
        25 => 0xfffffff40242b74b,
        26 => 0xfffffffb32748109,
        27 => 0xffff1292b9b49b74,
        28 => 0xfffffff487ab31a3,
        29 => 0xffff4b7401b41ab1,
        30 => 0xffff30bab9b09874,
        31 => 0xfffffffab99b4b74,
        32 => 0xfffffffffffff459,
        33 => 0xffffffffff380459,
        34 => 0xffffffffff051450,
        35 => 0xfffffff513538458,
        36 => 0xffffffffff459a21,
        37 => 0xfffffff594a21803,
        38 => 0xfffffff204245a25,
        39 => 0xffff8434535235a2,
        40 => 0xffffffffffb32459,
        41 => 0xfffffff594b802b0,
        42 => 0xfffffffb32510450,
        43 => 0xffff584b82852512,
        44 => 0xfffffff45931ab3a,
        45 => 0xffffab81a8180594,
        46 => 0xffff30bab5b05045,
        47 => 0xfffffffb8aa85845,
        48 => 0xffffffffff975879,
        49 => 0xfffffff375359039,
        50 => 0xfffffff751710870,
        51 => 0xffffffffff753351,
        52 => 0xfffffff21a759879,
        53 => 0xffff37503505921a,
        54 => 0xffff25a758528208,
        55 => 0xfffffff7533525a2,
        56 => 0xfffffff2b3987597,
        57 => 0xffffb72029279759,
        58 => 0xffff751871810b32,
        59 => 0xfffffff51771b12b,
        60 => 0xffffb3a31a758859,
        61 => 0xf0aba010b7905075,
        62 => 0xf07570805a30b0ab,
        63 => 0xffffffffff5b75ab,
        64 => 0xfffffffffffff56a,
        65 => 0xffffffffff6a5380,
        66 => 0xffffffffff6a5109,
        67 => 0xfffffff6a5891381,
        68 => 0xffffffffff162561,
        69 => 0xfffffff803621561,
        70 => 0xfffffff620609569,
        71 => 0xffff823625285895,
        72 => 0xffffffffff56ab32,
        73 => 0xfffffff56a02b80b,
        74 => 0xfffffff6a5b32910,
        75 => 0xffffb892b92916a5,
        76 => 0xfffffff315356b36,
        77 => 0xffff6b51505b0b80,
        78 => 0xffff9505606306b3,
        79 => 0xfffffff89bb96956,
        80 => 0xffffffffff8746a5,
        81 => 0xfffffffa56374034,
        82 => 0xfffffff7486a5091,
        83 => 0xffff49737179156a,
        84 => 0xfffffff874156216,
        85 => 0xffff743403625521,
        86 => 0xffff620560509748,
        87 => 0xf962695923497937,
        88 => 0xfffffff56a4872b3,
        89 => 0xffffb720242746a5,
        90 => 0xffff6a5b32874910,
        91 => 0xf6a54b7b492b9129,
        92 => 0xffff6b51535b3748,
        93 => 0xfb404b7b016b5b15,
        94 => 0xf74836b630560950,
        95 => 0xffff9b7974b96956,
        96 => 0xffffffffffa4694a,
        97 => 0xfffffff380a946a4,
        98 => 0xfffffff04606a10a,
        99 => 0xffffa16468618138,
        100 => 0xfffffff462421941,
        101 => 0xffff462942921803,
        102 => 0xffffffffff624420,
        103 => 0xfffffff624428238,
        104 => 0xfffffff32b46a94a,
        105 => 0xffff6a4a94b82280,
        106 => 0xffffa164606102b3,
        107 => 0xf1b8b12184a16146,
        108 => 0xffff36b319639469,
        109 => 0xf14641916b0181b8,
        110 => 0xfffffff4600636b3,
        111 => 0xffffffffff86b846,
        112 => 0xfffffffa98a876a7,
        113 => 0xffffa76a907a0370,
        114 => 0xffff0818717a176a,
        115 => 0xfffffff37117a76a,
        116 => 0xffff768981861621,
        117 => 0xf937390976192962,
        118 => 0xfffffff206607087,
        119 => 0xffffffffff276237,
        120 => 0xffff76898a86ab32,
        121 => 0xf7a9a76790b72702,
        122 => 0xfb32a767a1871081,
        123 => 0xffff17616a71b12b,
        124 => 0xf63136b619768698,
        125 => 0xffffffffff76b190,
        126 => 0xffff06b0b3607087,
        127 => 0xfffffffffffff6b7,
        128 => 0xfffffffffffffb67,
        129 => 0xffffffffff67b803,
        130 => 0xffffffffff67b910,
        131 => 0xfffffff67b138918,
        132 => 0xffffffffff7b621a,
        133 => 0xfffffff7b6803a21,
        134 => 0xfffffff7b69a2092,
        135 => 0xffff89a38a3a27b6,
        136 => 0xffffffffff726327,
        137 => 0xfffffff026067807,
        138 => 0xfffffff910732672,
        139 => 0xffff678891681261,
        140 => 0xfffffff73171a67a,
        141 => 0xffff801781a7167a,
        142 => 0xffff7a69a0a70730,
        143 => 0xfffffff9a88a7a67,
        144 => 0xffffffffff68b486,
        145 => 0xfffffff640603b63,
        146 => 0xfffffff109648b68,
        147 => 0xffff63b139369649,
        148 => 0xfffffff1a28b6486,
        149 => 0xffff640b60b03a21,
        150 => 0xffff9a2920b648b4,
        151 => 0xf36463b34923a39a,
        152 => 0xfffffff264248328,
        153 => 0xffffffffff264240,
        154 => 0xffff834642432091,
        155 => 0xfffffff642241491,
        156 => 0xffff1a6648168318,
        157 => 0xfffffff40660a01a,
        158 => 0xf39a9303a6834364,
        159 => 0xffffffffff4a649a,
        160 => 0xffffffffffb67594,
        161 => 0xfffffff67b594380,
        162 => 0xfffffffb67045105,
        163 => 0xffff51345343867b,
        164 => 0xfffffffb6721a459,
        165 => 0xffff594380a217b6,
        166 => 0xffff204a24a45b67,
        167 => 0xf67b25a523453843,
        168 => 0xfffffff945267327,
        169 => 0xffff786260680459,
        170 => 0xffff045051673263,
        171 => 0xf851584812786826,
        172 => 0xffff73167161a459,
        173 => 0xf459078701671a61,
        174 => 0xfa737a6a305a4a04,
        175 => 0xffffa84a458a7a67,
        176 => 0xfffffff98b9b6596,
        177 => 0xffff590650360b63,
        178 => 0xffffb65510b508b0,
        179 => 0xfffffff1355363b6,
        180 => 0xffff65b8b9b59a21,
        181 => 0xfa21965690b603b0,
        182 => 0xf52025a50865b58b,
        183 => 0xffff35a3a25363b6,
        184 => 0xffff283265825985,
        185 => 0xfffffff260069659,
        186 => 0xf826283865081851,
        187 => 0xffffffffff612651,
        188 => 0xf698965683a61631,
        189 => 0xffff06505960a01a,
        190 => 0xffffffffffa65830,
        191 => 0xfffffffffffff65a,
        192 => 0xffffffffffb57a5b,
        193 => 0xfffffff03857ba5b,
        194 => 0xfffffff091ba57b5,
        195 => 0xffff1381897ba57a,
        196 => 0xfffffff15717b21b,
        197 => 0xffffb27571721380,
        198 => 0xffff7b2209729579,
        199 => 0xf289823295b27257,
        200 => 0xfffffff573532a52,
        201 => 0xffff52a578258028,
        202 => 0xffff2a37353a5109,
        203 => 0xf25752a278129289,
        204 => 0xffffffffff573531,
        205 => 0xfffffff571170780,
        206 => 0xfffffff735539309,
        207 => 0xffffffffff795789,
        208 => 0xfffffff8ba8a5485,
        209 => 0xffff03bba50b5405,
        210 => 0xffff54aba8a48910,
        211 => 0xf41314943b54a4ba,
        212 => 0xffff8548b2582152,
        213 => 0xfb151b2b543b0b40,
        214 => 0xf58b8545b2950520,
        215 => 0xffffffffff3b2549,
        216 => 0xffff483543253a52,
        217 => 0xfffffff0244252a5,
        218 => 0xf910854583a532a3,
        219 => 0xffff2492914252a5,
        220 => 0xfffffff153358548,
        221 => 0xffffffffff501540,
        222 => 0xffff530509358548,
        223 => 0xfffffffffffff549,
        224 => 0xfffffffba9b947b4,
        225 => 0xffffba97b9794380,
        226 => 0xffffb470414b1ba1,
        227 => 0xf4bab474a1843413,
        228 => 0xffff219b294b97b4,
        229 => 0xf3801b2b197b9479,
        230 => 0xfffffff04224b47b,
        231 => 0xffff42343824b47b,
        232 => 0xffff947732972a92,
        233 => 0xf70207872a4797a9,
        234 => 0xfa040a1a472a3a73,
        235 => 0xffffffffff4782a1,
        236 => 0xfffffff317714194,
        237 => 0xffff178180714194,
        238 => 0xffffffffff347304,
        239 => 0xfffffffffffff784,
        240 => 0xffffffffff8ba8a9,
        241 => 0xfffffffa9bb93903,
        242 => 0xfffffffba88a0a10,
        243 => 0xffffffffffa3ba13,
        244 => 0xfffffff8b99b1b21,
        245 => 0xffff9b2921b93903,
        246 => 0xffffffffffb08b20,
        247 => 0xfffffffffffffb23,
        248 => 0xfffffff98aa82832,
        249 => 0xffffffffff2902a9,
        250 => 0xffff8a1810a82832,
        251 => 0xfffffffffffff2a1,
        252 => 0xffffffffff819831,
        253 => 0xfffffffffffff190,
        254 => 0xfffffffffffff830,
        255 => 0xffffffffffffffff,
    }
}

/// The packed triangulation row for a corner case.
pub fn tri_row(case: u8) -> (r: u64)
    ensures
        r == tri_row_bits(case),
{
    match case {
        0 => 0xffffffffffffffff,
        1 => 0xfffffffffffff380,
        2 => 0xfffffffffffff910,
        3 => 0xffffffffff189381,
        4 => 0xfffffffffffffa21,
        5 => 0xffffffffffa21380,
        6 => 0xffffffffff920a29,
        7 => 0xfffffff89a8a2382,
        8 => 0xfffffffffffff2b3,
        9 => 0xffffffffff0b82b0,
        10 => 0xffffffffffb32091,
        11 => 0xfffffffb89b912b1,
        12 => 0xffffffffff3ab1a3,
        13 => 0xfffffffab8a801a0,
        14 => 0xfffffff9ab9b3093,
        15 => 0xffffffffffb8aa89,
        16 => 0xfffffffffffff874,
        17 => 0xffffffffff437034,
        18 => 0xffffffffff748910,
        19 => 0xfffffff137174914,
        20 => 0xffffffffff748a21,
        21 => 0xfffffffa21403743,
        22 => 0xfffffff748209a29,
        23 => 0xffff4973727929a2,
        24 => 0xffffffffff2b3748,
        25 => 0xfffffff40242b74b,
        26 => 0xfffffffb32748109,
        27 => 0xffff1292b9b49b74,
        28 => 0xfffffff487ab31a3,
        29 => 0xffff4b7401b41ab1,
        30 => 0xffff30bab9b09874,
        31 => 0xfffffffab99b4b74,
        32 => 0xfffffffffffff459,
        33 => 0xffffffffff380459,
        34 => 0xffffffffff051450,
        35 => 0xfffffff513538458,
        36 => 0xffffffffff459a21,
        37 => 0xfffffff594a21803,
        38 => 0xfffffff204245a25,
        39 => 0xffff8434535235a2,
        40 => 0xffffffffffb32459,
        41 => 0xfffffff594b802b0,
        42 => 0xfffffffb32510450,
        43 => 0xffff584b82852512,
        44 => 0xfffffff45931ab3a,
        45 => 0xffffab81a8180594,
        46 => 0xffff30bab5b05045,
        47 => 0xfffffffb8aa85845,
        48 => 0xffffffffff975879,
        49 => 0xfffffff375359039,
        50 => 0xfffffff751710870,
        51 => 0xffffffffff753351,
        52 => 0xfffffff21a759879,
        53 => 0xffff37503505921a,
        54 => 0xffff25a758528208,
        55 => 0xfffffff7533525a2,
        56 => 0xfffffff2b3987597,
        57 => 0xffffb72029279759,
        58 => 0xffff751871810b32,
        59 => 0xfffffff51771b12b,
        60 => 0xffffb3a31a758859,
        61 => 0xf0aba010b7905075,
        62 => 0xf07570805a30b0ab,
        63 => 0xffffffffff5b75ab,
        64 => 0xfffffffffffff56a,
        65 => 0xffffffffff6a5380,
        66 => 0xffffffffff6a5109,
        67 => 0xfffffff6a5891381,
        68 => 0xffffffffff162561,
        69 => 0xfffffff803621561,
        70 => 0xfffffff620609569,
        71 => 0xffff823625285895,
        72 => 0xffffffffff56ab32,
        73 => 0xfffffff56a02b80b,
        74 => 0xfffffff6a5b32910,
        75 => 0xffffb892b92916a5,
        76 => 0xfffffff315356b36,
        77 => 0xffff6b51505b0b80,
        78 => 0xffff9505606306b3,
        79 => 0xfffffff89bb96956,
        80 => 0xffffffffff8746a5,
        81 => 0xfffffffa56374034,
        82 => 0xfffffff7486a5091,
        83 => 0xffff49737179156a,
        84 => 0xfffffff874156216,
        85 => 0xffff743403625521,
        86 => 0xffff620560509748,
        87 => 0xf962695923497937,
        88 => 0xfffffff56a4872b3,
        89 => 0xffffb720242746a5,
        90 => 0xffff6a5b32874910,
        91 => 0xf6a54b7b492b9129,
        92 => 0xffff6b51535b3748,
        93 => 0xfb404b7b016b5b15,
        94 => 0xf74836b630560950,
        95 => 0xffff9b7974b96956,
        96 => 0xffffffffffa4694a,
        97 => 0xfffffff380a946a4,
        98 => 0xfffffff04606a10a,
        99 => 0xffffa16468618138,
        100 => 0xfffffff462421941,
        101 => 0xffff462942921803,
        102 => 0xffffffffff624420,
        103 => 0xfffffff624428238,
        104 => 0xfffffff32b46a94a,
        105 => 0xffff6a4a94b82280,
        106 => 0xffffa164606102b3,
        107 => 0xf1b8b12184a16146,
        108 => 0xffff36b319639469,
        109 => 0xf14641916b0181b8,
        110 => 0xfffffff4600636b3,
        111 => 0xffffffffff86b846,
        112 => 0xfffffffa98a876a7,
        113 => 0xffffa76a907a0370,
        114 => 0xffff0818717a176a,
        115 => 0xfffffff37117a76a,
        116 => 0xffff768981861621,
        117 => 0xf937390976192962,
        118 => 0xfffffff206607087,
        119 => 0xffffffffff276237,
        120 => 0xffff76898a86ab32,
        121 => 0xf7a9a76790b72702,
        122 => 0xfb32a767a1871081,
        123 => 0xffff17616a71b12b,
        124 => 0xf63136b619768698,
        125 => 0xffffffffff76b190,
        126 => 0xffff06b0b3607087,
        127 => 0xfffffffffffff6b7,
        128 => 0xfffffffffffffb67,
        129 => 0xffffffffff67b803,
        130 => 0xffffffffff67b910,
        131 => 0xfffffff67b138918,
        132 => 0xffffffffff7b621a,
        133 => 0xfffffff7b6803a21,
        134 => 0xfffffff7b69a2092,
        135 => 0xffff89a38a3a27b6,
        136 => 0xffffffffff726327,
        137 => 0xfffffff026067807,
        138 => 0xfffffff910732672,
        139 => 0xffff678891681261,
        140 => 0xfffffff73171a67a,
        141 => 0xffff801781a7167a,
        142 => 0xffff7a69a0a70730,
        143 => 0xfffffff9a88a7a67,
        144 => 0xffffffffff68b486,
        145 => 0xfffffff640603b63,
        146 => 0xfffffff109648b68,
        147 => 0xffff63b139369649,
        148 => 0xfffffff1a28b6486,
        149 => 0xffff640b60b03a21,
        150 => 0xffff9a2920b648b4,
        151 => 0xf36463b34923a39a,
        152 => 0xfffffff264248328,
        153 => 0xffffffffff264240,
        154 => 0xffff834642432091,
        155 => 0xfffffff642241491,
        156 => 0xffff1a6648168318,
        157 => 0xfffffff40660a01a,
        158 => 0xf39a9303a6834364,
        159 => 0xffffffffff4a649a,
        160 => 0xffffffffffb67594,
        161 => 0xfffffff67b594380,
        162 => 0xfffffffb67045105,
        163 => 0xffff51345343867b,
        164 => 0xfffffffb6721a459,
        165 => 0xffff594380a217b6,
        166 => 0xffff204a24a45b67,
        167 => 0xf67b25a523453843,
        168 => 0xfffffff945267327,
        169 => 0xffff786260680459,
        170 => 0xffff045051673263,
        171 => 0xf851584812786826,
        172 => 0xffff73167161a459,
        173 => 0xf459078701671a61,
        174 => 0xfa737a6a305a4a04,
        175 => 0xffffa84a458a7a67,
        176 => 0xfffffff98b9b6596,
        177 => 0xffff590650360b63,
        178 => 0xffffb65510b508b0,
        179 => 0xfffffff1355363b6,
        180 => 0xffff65b8b9b59a21,
        181 => 0xfa21965690b603b0,
        182 => 0xf52025a50865b58b,
        183 => 0xffff35a3a25363b6,
        184 => 0xffff283265825985,
        185 => 0xfffffff260069659,
        186 => 0xf826283865081851,
        187 => 0xffffffffff612651,
        188 => 0xf698965683a61631,
        189 => 0xffff06505960a01a,
        190 => 0xffffffffffa65830,
        191 => 0xfffffffffffff65a,
        192 => 0xffffffffffb57a5b,
        193 => 0xfffffff03857ba5b,
        194 => 0xfffffff091ba57b5,
        195 => 0xffff1381897ba57a,
        196 => 0xfffffff15717b21b,
        197 => 0xffffb27571721380,
        198 => 0xffff7b2209729579,
        199 => 0xf289823295b27257,
        200 => 0xfffffff573532a52,
        201 => 0xffff52a578258028,
        202 => 0xffff2a37353a5109,
        203 => 0xf25752a278129289,
        204 => 0xffffffffff573531,
        205 => 0xfffffff571170780,
        206 => 0xfffffff735539309,
        207 => 0xffffffffff795789,
        208 => 0xfffffff8ba8a5485,
        209 => 0xffff03bba50b5405,
        210 => 0xffff54aba8a48910,
        211 => 0xf41314943b54a4ba,
        212 => 0xffff8548b2582152,
        213 => 0xfb151b2b543b0b40,
        214 => 0xf58b8545b2950520,
        215 => 0xffffffffff3b2549,
        216 => 0xffff483543253a52,
        217 => 0xfffffff0244252a5,
        218 => 0xf910854583a532a3,
        219 => 0xffff2492914252a5,
        220 => 0xfffffff153358548,
        221 => 0xffffffffff501540,
        222 => 0xffff530509358548,
        223 => 0xfffffffffffff549,
        224 => 0xfffffffba9b947b4,
        225 => 0xffffba97b9794380,
        226 => 0xffffb470414b1ba1,
        227 => 0xf4bab474a1843413,
        228 => 0xffff219b294b97b4,
        229 => 0xf3801b2b197b9479,
        230 => 0xfffffff04224b47b,
        231 => 0xffff42343824b47b,
        232 => 0xffff947732972a92,
        233 => 0xf70207872a4797a9,
        234 => 0xfa040a1a472a3a73,
        235 => 0xffffffffff4782a1,
        236 => 0xfffffff317714194,
        237 => 0xffff178180714194,
        238 => 0xffffffffff347304,
        239 => 0xfffffffffffff784,
        240 => 0xffffffffff8ba8a9,
        241 => 0xfffffffa9bb93903,
        242 => 0xfffffffba88a0a10,
        243 => 0xffffffffffa3ba13,
        244 => 0xfffffff8b99b1b21,
        245 => 0xffff9b2921b93903,
        246 => 0xffffffffffb08b20,
        247 => 0xfffffffffffffb23,
        248 => 0xfffffff98aa82832,
        249 => 0xffffffffff2902a9,
        250 => 0xffff8a1810a82832,
        251 => 0xfffffffffffff2a1,
        252 => 0xffffffffff819831,
        253 => 0xfffffffffffff190,
        254 => 0xfffffffffffff830,
        255 => 0xffffffffffffffff,
    }
}

} // verus!
