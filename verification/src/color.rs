//! Pixels and per-channel color correction tables.

use vstd::arithmetic::div_mod::lemma_div_is_ordered;
use vstd::arithmetic::mul::lemma_mul_inequality;
use vstd::prelude::*;

verus! {

/// One pixel: 8-bit red, green and blue channels.
#[derive(Copy, Clone, Debug, Default, PartialEq, Eq, Structural)]
pub struct Pixel {
    pub r: u8,
    pub g: u8,
    pub b: u8,
}

/// A color correction: one 256-entry lookup table per channel.
pub struct Correction {
    r: Vec<u8>,
    g: Vec<u8>,
    b: Vec<u8>,
}

impl Correction {
    /// The three tables, as sequences, in channel order red, green, blue.
    pub closed spec fn tables(&self) -> (Seq<u8>, Seq<u8>, Seq<u8>) {
        (self.r@, self.g@, self.b@)
    }

    /// Every channel table has exactly 256 entries.
    pub open spec fn wf(&self) -> bool {
        &&& self.tables().0.len() == 256
        &&& self.tables().1.len() == 256
        &&& self.tables().2.len() == 256
    }

    /// A correction is the identity when every table maps each value to itself.
    pub open spec fn is_identity(&self) -> bool {
        &&& forall|v: int| 0 <= v < 256 ==> self.tables().0[v] == v
        &&& forall|v: int| 0 <= v < 256 ==> self.tables().1[v] == v
        &&& forall|v: int| 0 <= v < 256 ==> self.tables().2[v] == v
    }

    /// What `correct` returns: each channel looked up in its table.
    pub open spec fn spec_correct(&self, pix: Pixel) -> Pixel
        recommends
            self.wf(),
    {
        Pixel {
            r: self.tables().0[pix.r as int],
            g: self.tables().1[pix.g as int],
            b: self.tables().2[pix.b as int],
        }
    }

    /// The identity correction.
    pub fn none() -> (c: Correction)
        ensures
            c.wf(),
            c.is_identity(),
    {
        Correction { r: identity_table(), g: identity_table(), b: identity_table() }
    }


    /// Tables sampling the sRGB transfer curve, each channel scaled to its
    /// own peak: entry `v` is the rounded scaling of the curve sample for
    /// `v`, so zero stays zero, full scale reaches the peak, and darker in
    /// never comes out brighter.
    pub fn srgb(max_red: u8, max_green: u8, max_blue: u8) -> (c: Correction)
        ensures
            c.wf(),
            is_srgb_tables(&c, max_red, max_green, max_blue),
            table_monotone(c.tables().0),
            table_monotone(c.tables().1),
            table_monotone(c.tables().2),
            table_bounded(c.tables().0, max_red),
            table_bounded(c.tables().1, max_green),
            table_bounded(c.tables().2, max_blue),
            c.tables().0[0] == 0 && c.tables().0[255] == max_red,
            c.tables().1[0] == 0 && c.tables().1[255] == max_green,
            c.tables().2[0] == 0 && c.tables().2[255] == max_blue,
    {
        Correction {
            r: scale_table(max_red),
            g: scale_table(max_green),
            b: scale_table(max_blue),
        }
    }

    /// Look each channel up in its table.
    pub fn correct(&self, pix: Pixel) -> (out: Pixel)
        requires
            self.wf(),
        ensures
            out == self.spec_correct(pix),
    {
        Pixel {
            r: self.r[pix.r as usize],
            g: self.g[pix.g as usize],
            b: self.b[pix.b as usize],
        }
    }
}

/// The 256-entry table mapping every 8-bit value to itself.
fn identity_table() -> (t: Vec<u8>)
    ensures
        t@.len() == 256,
        forall|v: int| 0 <= v < 256 ==> t@[v] == v,
{
    let mut t: Vec<u8> = Vec::new();
    let mut i: usize = 0;
    while i < 256
        invariant
            i <= 256,
            t@.len() == i,
            forall|v: int| 0 <= v < i ==> t@[v] == v,
        decreases 256 - i,
    {
        t.push(i as u8);
        i += 1;
    }
    t
}


/// One in the fixed-point scale of the transfer curve: `2^40`.
pub const SRGB_ONE: u64 = 0x100_0000_0000;

/// One half in the fixed-point scale of the transfer curve: `2^39`.
pub const SRGB_HALF: u64 = 0x80_0000_0000;

/// A table that never maps a darker value above a brighter one.
pub open spec fn table_monotone(t: Seq<u8>) -> bool {
    forall|i: int, j: int| 0 <= i <= j < t.len() ==> t[i] <= t[j]
}

/// A table that never exceeds a channel's peak.
pub open spec fn table_bounded(t: Seq<u8>, max: u8) -> bool {
    forall|i: int| 0 <= i < t.len() ==> t[i] <= max
}

/// The sRGB transfer curve sampled at the 256 input values, as fractions
/// of one scaled by `2^40`: for input `v`, `x = v / 255` and the sample is
/// `x / 12.92` below the linear cutoff `x <= 0.04045`, else
/// `((x + 0.055) / 1.055) ^ 2.4`, each rounded to the nearest multiple of
/// `2^-40`. The samples rise from zero at the first input to exactly one
/// at the last. The definition is opaque so that only the proofs that read
/// the table pay for its size.
#[verifier::opaque]
pub open spec fn srgb_curve_at(v: int) -> u64 {
    if v < 1 {
        0
    } else if v < 2 {
        333731448
    } else if v < 3 {
        667462896
    } else if v < 4 {
        1001194343
    } else if v < 5 {
        1334925791
    } else if v < 6 {
        1668657239
    } else if v < 7 {
        2002388687
    } else if v < 8 {
        2336120134
    } else if v < 9 {
        2669851582
    } else if v < 10 {
        3003583030
    } else if v < 11 {
        3337314478
    } else if v < 12 {
        3679554985
    } else if v < 13 {
        4042362552
    } else if v < 14 {
        4425223160
    } else if v < 15 {
        4828441583
    } else if v < 16 {
        5252315897
    } else if v < 17 {
        5697137864
    } else if v < 18 {
        6163193269
    } else if v < 19 {
        6650762243
    } else if v < 20 {
        7160119548
    } else if v < 21 {
        7691534842
    } else if v < 22 {
        8245272929
    } else if v < 23 {
        8821593979
    } else if v < 24 {
        9420753745
    } else if v < 25 {
        10043003752
    } else if v < 26 {
        10688591480
    } else if v < 27 {
        11357760534
    } else if v < 28 {
        12050750802
    } else if v < 29 {
        12767798600
    } else if v < 30 {
        13509136813
    } else if v < 31 {
        14274995024
    } else if v < 32 {
        15065599635
    } else if v < 33 {
        15881173984
    } else if v < 34 {
        16721938449
    } else if v < 35 {
        17588110557
    } else if v < 36 {
        18479905073
    } else if v < 37 {
        19397534097
    } else if v < 38 {
        20341207148
    } else if v < 39 {
        21311131246
    } else if v < 40 {
        22307510992
    } else if v < 41 {
        23330548638
    } else if v < 42 {
        24380444163
    } else if v < 43 {
        25457395335
    } else if v < 44 {
        26561597777
    } else if v < 45 {
        27693245027
    } else if v < 46 {
        28852528600
    } else if v < 47 {
        30039638038
    } else if v < 48 {
        31254760967
    } else if v < 49 {
        32498083145
    } else if v < 50 {
        33769788513
    } else if v < 51 {
        35070059244
    } else if v < 52 {
        36399075779
    } else if v < 53 {
        37757016882
    } else if v < 54 {
        39144059669
    } else if v < 55 {
        40560379658
    } else if v < 56 {
        42006150801
    } else if v < 57 {
        43481545522
    } else if v < 58 {
        44986734752
    } else if v < 59 {
        46521887965
    } else if v < 60 {
        48087173209
    } else if v < 61 {
        49682757137
    } else if v < 62 {
        51308805039
    } else if v < 63 {
        52965480869
    } else if v < 64 {
        54652947276
    } else if v < 65 {
        56371365632
    } else if v < 66 {
        58120896054
    } else if v < 67 {
        59901697433
    } else if v < 68 {
        61713927459
    } else if v < 69 {
        63557742644
    } else if v < 70 {
        65433298344
    } else if v < 71 {
        67340748783
    } else if v < 72 {
        69280247076
    } else if v < 73 {
        71251945247
    } else if v < 74 {
        73255994250
    } else if v < 75 {
        75292543993
    } else if v < 76 {
        77361743350
    } else if v < 77 {
        79463740186
    } else if v < 78 {
        81598681373
    } else if v < 79 {
        83766712805
    } else if v < 80 {
        85967979421
    } else if v < 81 {
        88202625214
    } else if v < 82 {
        90470793254
    } else if v < 83 {
        92772625700
    } else if v < 84 {
        95108263817
    } else if v < 85 {
        97477847989
    } else if v < 86 {
        99881517733
    } else if v < 87 {
        102319411719
    } else if v < 88 {
        104791667775
    } else if v < 89 {
        107298422906
    } else if v < 90 {
        109839813308
    } else if v < 91 {
        112415974374
    } else if v < 92 {
        115027040715
    } else if v < 93 {
        117673146165
    } else if v < 94 {
        120354423797
    } else if v < 95 {
        123071005932
    } else if v < 96 {
        125823024152
    } else if v < 97 {
        128610609309
    } else if v < 98 {
        131433891539
    } else if v < 99 {
        134293000269
    } else if v < 100 {
        137188064227
    } else if v < 101 {
        140119211456
    } else if v < 102 {
        143086569319
    } else if v < 103 {
        146090264512
    } else if v < 104 {
        149130423070
    } else if v < 105 {
        152207170380
    } else if v < 106 {
        155320631187
    } else if v < 107 {
        158470929602
    } else if v < 108 {
        161658189114
    } else if v < 109 {
        164882532596
    } else if v < 110 {
        168144082311
    } else if v < 111 {
        171442959925
    } else if v < 112 {
        174779286510
    } else if v < 113 {
        178153182556
    } else if v < 114 {
        181564767975
    } else if v < 115 {
        185014162107
    } else if v < 116 {
        188501483734
    } else if v < 117 {
        192026851080
    } else if v < 118 {
        195590381821
    } else if v < 119 {
        199192193090
    } else if v < 120 {
        202832401487
    } else if v < 121 {
        206511123082
    } else if v < 122 {
        210228473424
    } else if v < 123 {
        213984567543
    } else if v < 124 {
        217779519962
    } else if v < 125 {
        221613444698
    } else if v < 126 {
        225486455271
    } else if v < 127 {
        229398664708
    } else if v < 128 {
        233350185548
    } else if v < 129 {
        237341129853
    } else if v < 130 {
        241371609204
    } else if v < 131 {
        245441734715
    } else if v < 132 {
        249551617033
    } else if v < 133 {
        253701366346
    } else if v < 134 {
        257891092388
    } else if v < 135 {
        262120904440
    } else if v < 136 {
        266390911341
    } else if v < 137 {
        270701221489
    } else if v < 138 {
        275051942845
    } else if v < 139 {
        279443182940
    } else if v < 140 {
        283875048880
    } else if v < 141 {
        288347647346
    } else if v < 142 {
        292861084604
    } else if v < 143 {
        297415466507
    } else if v < 144 {
        302010898497
    } else if v < 145 {
        306647485613
    } else if v < 146 {
        311325332493
    } else if v < 147 {
        316044543378
    } else if v < 148 {
        320805222118
    } else if v < 149 {
        325607472172
    } else if v < 150 {
        330451396616
    } else if v < 151 {
        335337098144
    } else if v < 152 {
        340264679073
    } else if v < 153 {
        345234241347
    } else if v < 154 {
        350245886539
    } else if v < 155 {
        355299715857
    } else if v < 156 {
        360395830143
    } else if v < 157 {
        365534329885
    } else if v < 158 {
        370715315209
    } else if v < 159 {
        375938885891
    } else if v < 160 {
        381205141359
    } else if v < 161 {
        386514180693
    } else if v < 162 {
        391866102630
    } else if v < 163 {
        397261005566
    } else if v < 164 {
        402698987564
    } else if v < 165 {
        408180146350
    } else if v < 166 {
        413704579320
    } else if v < 167 {
        419272383544
    } else if v < 168 {
        424883655764
    } else if v < 169 {
        430538492403
    } else if v < 170 {
        436236989564
    } else if v < 171 {
        441979243033
    } else if v < 172 {
        447765348284
    } else if v < 173 {
        453595400479
    } else if v < 174 {
        459469494472
    } else if v < 175 {
        465387724811
    } else if v < 176 {
        471350185744
    } else if v < 177 {
        477356971215
    } else if v < 178 {
        483408174873
    } else if v < 179 {
        489503890070
    } else if v < 180 {
        495644209867
    } else if v < 181 {
        501829227032
    } else if v < 182 {
        508059034048
    } else if v < 183 {
        514333723111
    } else if v < 184 {
        520653386133
    } else if v < 185 {
        527018114747
    } else if v < 186 {
        533428000306
    } else if v < 187 {
        539883133888
    } else if v < 188 {
        546383606295
    } else if v < 189 {
        552929508058
    } else if v < 190 {
        559520929438
    } else if v < 191 {
        566157960429
    } else if v < 192 {
        572840690758
    } else if v < 193 {
        579569209890
    } else if v < 194 {
        586343607028
    } else if v < 195 {
        593163971115
    } else if v < 196 {
        600030390838
    } else if v < 197 {
        606942954627
    } else if v < 198 {
        613901750660
    } else if v < 199 {
        620906866861
    } else if v < 200 {
        627958390908
    } else if v < 201 {
        635056410228
    } else if v < 202 {
        642201012004
    } else if v < 203 {
        649392283174
    } else if v < 204 {
        656630310435
    } else if v < 205 {
        663915180240
    } else if v < 206 {
        671246978809
    } else if v < 207 {
        678625792120
    } else if v < 208 {
        686051705918
    } else if v < 209 {
        693524805715
    } else if v < 210 {
        701045176790
    } else if v < 211 {
        708612904192
    } else if v < 212 {
        716228072742
    } else if v < 213 {
        723890767034
    } else if v < 214 {
        731601071436
    } else if v < 215 {
        739359070093
    } else if v < 216 {
        747164846929
    } else if v < 217 {
        755018485646
    } else if v < 218 {
        762920069726
    } else if v < 219 {
        770869682436
    } else if v < 220 {
        778867406826
    } else if v < 221 {
        786913325731
    } else if v < 222 {
        795007521773
    } else if v < 223 {
        803150077363
    } else if v < 224 {
        811341074703
    } else if v < 225 {
        819580595783
    } else if v < 226 {
        827868722389
    } else if v < 227 {
        836205536099
    } else if v < 228 {
        844591118288
    } else if v < 229 {
        853025550127
    } else if v < 230 {
        861508912585
    } else if v < 231 {
        870041286431
    } else if v < 232 {
        878622752234
    } else if v < 233 {
        887253390367
    } else if v < 234 {
        895933281005
    } else if v < 235 {
        904662504127
    } else if v < 236 {
        913441139520
    } else if v < 237 {
        922269266776
    } else if v < 238 {
        931146965297
    } else if v < 239 {
        940074314295
    } else if v < 240 {
        949051392792
    } else if v < 241 {
        958078279621
    } else if v < 242 {
        967155053430
    } else if v < 243 {
        976281792682
    } else if v < 244 {
        985458575654
    } else if v < 245 {
        994685480441
    } else if v < 246 {
        1003962584953
    } else if v < 247 {
        1013289966924
    } else if v < 248 {
        1022667703904
    } else if v < 249 {
        1032095873267
    } else if v < 250 {
        1041574552206
    } else if v < 251 {
        1051103817742
    } else if v < 252 {
        1060683746716
    } else if v < 253 {
        1070314415797
    } else if v < 254 {
        1079995901481
    } else if v < 255 {
        1089728280090
    } else {
        1099511627776
    }
}

/// Read one sample of the transfer curve.
fn curve_entry(v: usize) -> (q: u64)
    requires
        v < 256,
    ensures
        q == srgb_curve_at(v as int),
{
    proof {
        reveal(srgb_curve_at);
    }
    if v < 1 {
        0
    } else if v < 2 {
        333731448
    } else if v < 3 {
        667462896
    } else if v < 4 {
        1001194343
    } else if v < 5 {
        1334925791
    } else if v < 6 {
        1668657239
    } else if v < 7 {
        2002388687
    } else if v < 8 {
        2336120134
    } else if v < 9 {
        2669851582
    } else if v < 10 {
        3003583030
    } else if v < 11 {
        3337314478
    } else if v < 12 {
        3679554985
    } else if v < 13 {
        4042362552
    } else if v < 14 {
        4425223160
    } else if v < 15 {
        4828441583
    } else if v < 16 {
        5252315897
    } else if v < 17 {
        5697137864
    } else if v < 18 {
        6163193269
    } else if v < 19 {
        6650762243
    } else if v < 20 {
        7160119548
    } else if v < 21 {
        7691534842
    } else if v < 22 {
        8245272929
    } else if v < 23 {
        8821593979
    } else if v < 24 {
        9420753745
    } else if v < 25 {
        10043003752
    } else if v < 26 {
        10688591480
    } else if v < 27 {
        11357760534
    } else if v < 28 {
        12050750802
    } else if v < 29 {
        12767798600
    } else if v < 30 {
        13509136813
    } else if v < 31 {
        14274995024
    } else if v < 32 {
        15065599635
    } else if v < 33 {
        15881173984
    } else if v < 34 {
        16721938449
    } else if v < 35 {
        17588110557
    } else if v < 36 {
        18479905073
    } else if v < 37 {
        19397534097
    } else if v < 38 {
        20341207148
    } else if v < 39 {
        21311131246
    } else if v < 40 {
        22307510992
    } else if v < 41 {
        23330548638
    } else if v < 42 {
        24380444163
    } else if v < 43 {
        25457395335
    } else if v < 44 {
        26561597777
    } else if v < 45 {
        27693245027
    } else if v < 46 {
        28852528600
    } else if v < 47 {
        30039638038
    } else if v < 48 {
        31254760967
    } else if v < 49 {
        32498083145
    } else if v < 50 {
        33769788513
    } else if v < 51 {
        35070059244
    } else if v < 52 {
        36399075779
    } else if v < 53 {
        37757016882
    } else if v < 54 {
        39144059669
    } else if v < 55 {
        40560379658
    } else if v < 56 {
        42006150801
    } else if v < 57 {
        43481545522
    } else if v < 58 {
        44986734752
    } else if v < 59 {
        46521887965
    } else if v < 60 {
        48087173209
    } else if v < 61 {
        49682757137
    } else if v < 62 {
        51308805039
    } else if v < 63 {
        52965480869
    } else if v < 64 {
        54652947276
    } else if v < 65 {
        56371365632
    } else if v < 66 {
        58120896054
    } else if v < 67 {
        59901697433
    } else if v < 68 {
        61713927459
    } else if v < 69 {
        63557742644
    } else if v < 70 {
        65433298344
    } else if v < 71 {
        67340748783
    } else if v < 72 {
        69280247076
    } else if v < 73 {
        71251945247
    } else if v < 74 {
        73255994250
    } else if v < 75 {
        75292543993
    } else if v < 76 {
        77361743350
    } else if v < 77 {
        79463740186
    } else if v < 78 {
        81598681373
    } else if v < 79 {
        83766712805
    } else if v < 80 {
        85967979421
    } else if v < 81 {
        88202625214
    } else if v < 82 {
        90470793254
    } else if v < 83 {
        92772625700
    } else if v < 84 {
        95108263817
    } else if v < 85 {
        97477847989
    } else if v < 86 {
        99881517733
    } else if v < 87 {
        102319411719
    } else if v < 88 {
        104791667775
    } else if v < 89 {
        107298422906
    } else if v < 90 {
        109839813308
    } else if v < 91 {
        112415974374
    } else if v < 92 {
        115027040715
    } else if v < 93 {
        117673146165
    } else if v < 94 {
        120354423797
    } else if v < 95 {
        123071005932
    } else if v < 96 {
        125823024152
    } else if v < 97 {
        128610609309
    } else if v < 98 {
        131433891539
    } else if v < 99 {
        134293000269
    } else if v < 100 {
        137188064227
    } else if v < 101 {
        140119211456
    } else if v < 102 {
        143086569319
    } else if v < 103 {
        146090264512
    } else if v < 104 {
        149130423070
    } else if v < 105 {
        152207170380
    } else if v < 106 {
        155320631187
    } else if v < 107 {
        158470929602
    } else if v < 108 {
        161658189114
    } else if v < 109 {
        164882532596
    } else if v < 110 {
        168144082311
    } else if v < 111 {
        171442959925
    } else if v < 112 {
        174779286510
    } else if v < 113 {
        178153182556
    } else if v < 114 {
        181564767975
    } else if v < 115 {
        185014162107
    } else if v < 116 {
        188501483734
    } else if v < 117 {
        192026851080
    } else if v < 118 {
        195590381821
    } else if v < 119 {
        199192193090
    } else if v < 120 {
        202832401487
    } else if v < 121 {
        206511123082
    } else if v < 122 {
        210228473424
    } else if v < 123 {
        213984567543
    } else if v < 124 {
        217779519962
    } else if v < 125 {
        221613444698
    } else if v < 126 {
        225486455271
    } else if v < 127 {
        229398664708
    } else if v < 128 {
        233350185548
    } else if v < 129 {
        237341129853
    } else if v < 130 {
        241371609204
    } else if v < 131 {
        245441734715
    } else if v < 132 {
        249551617033
    } else if v < 133 {
        253701366346
    } else if v < 134 {
        257891092388
    } else if v < 135 {
        262120904440
    } else if v < 136 {
        266390911341
    } else if v < 137 {
        270701221489
    } else if v < 138 {
        275051942845
    } else if v < 139 {
        279443182940
    } else if v < 140 {
        283875048880
    } else if v < 141 {
        288347647346
    } else if v < 142 {
        292861084604
    } else if v < 143 {
        297415466507
    } else if v < 144 {
        302010898497
    } else if v < 145 {
        306647485613
    } else if v < 146 {
        311325332493
    } else if v < 147 {
        316044543378
    } else if v < 148 {
        320805222118
    } else if v < 149 {
        325607472172
    } else if v < 150 {
        330451396616
    } else if v < 151 {
        335337098144
    } else if v < 152 {
        340264679073
    } else if v < 153 {
        345234241347
    } else if v < 154 {
        350245886539
    } else if v < 155 {
        355299715857
    } else if v < 156 {
        360395830143
    } else if v < 157 {
        365534329885
    } else if v < 158 {
        370715315209
    } else if v < 159 {
        375938885891
    } else if v < 160 {
        381205141359
    } else if v < 161 {
        386514180693
    } else if v < 162 {
        391866102630
    } else if v < 163 {
        397261005566
    } else if v < 164 {
        402698987564
    } else if v < 165 {
        408180146350
    } else if v < 166 {
        413704579320
    } else if v < 167 {
        419272383544
    } else if v < 168 {
        424883655764
    } else if v < 169 {
        430538492403
    } else if v < 170 {
        436236989564
    } else if v < 171 {
        441979243033
    } else if v < 172 {
        447765348284
    } else if v < 173 {
        453595400479
    } else if v < 174 {
        459469494472
    } else if v < 175 {
        465387724811
    } else if v < 176 {
        471350185744
    } else if v < 177 {
        477356971215
    } else if v < 178 {
        483408174873
    } else if v < 179 {
        489503890070
    } else if v < 180 {
        495644209867
    } else if v < 181 {
        501829227032
    } else if v < 182 {
        508059034048
    } else if v < 183 {
        514333723111
    } else if v < 184 {
        520653386133
    } else if v < 185 {
        527018114747
    } else if v < 186 {
        533428000306
    } else if v < 187 {
        539883133888
    } else if v < 188 {
        546383606295
    } else if v < 189 {
        552929508058
    } else if v < 190 {
        559520929438
    } else if v < 191 {
        566157960429
    } else if v < 192 {
        572840690758
    } else if v < 193 {
        579569209890
    } else if v < 194 {
        586343607028
    } else if v < 195 {
        593163971115
    } else if v < 196 {
        600030390838
    } else if v < 197 {
        606942954627
    } else if v < 198 {
        613901750660
    } else if v < 199 {
        620906866861
    } else if v < 200 {
        627958390908
    } else if v < 201 {
        635056410228
    } else if v < 202 {
        642201012004
    } else if v < 203 {
        649392283174
    } else if v < 204 {
        656630310435
    } else if v < 205 {
        663915180240
    } else if v < 206 {
        671246978809
    } else if v < 207 {
        678625792120
    } else if v < 208 {
        686051705918
    } else if v < 209 {
        693524805715
    } else if v < 210 {
        701045176790
    } else if v < 211 {
        708612904192
    } else if v < 212 {
        716228072742
    } else if v < 213 {
        723890767034
    } else if v < 214 {
        731601071436
    } else if v < 215 {
        739359070093
    } else if v < 216 {
        747164846929
    } else if v < 217 {
        755018485646
    } else if v < 218 {
        762920069726
    } else if v < 219 {
        770869682436
    } else if v < 220 {
        778867406826
    } else if v < 221 {
        786913325731
    } else if v < 222 {
        795007521773
    } else if v < 223 {
        803150077363
    } else if v < 224 {
        811341074703
    } else if v < 225 {
        819580595783
    } else if v < 226 {
        827868722389
    } else if v < 227 {
        836205536099
    } else if v < 228 {
        844591118288
    } else if v < 229 {
        853025550127
    } else if v < 230 {
        861508912585
    } else if v < 231 {
        870041286431
    } else if v < 232 {
        878622752234
    } else if v < 233 {
        887253390367
    } else if v < 234 {
        895933281005
    } else if v < 235 {
        904662504127
    } else if v < 236 {
        913441139520
    } else if v < 237 {
        922269266776
    } else if v < 238 {
        931146965297
    } else if v < 239 {
        940074314295
    } else if v < 240 {
        949051392792
    } else if v < 241 {
        958078279621
    } else if v < 242 {
        967155053430
    } else if v < 243 {
        976281792682
    } else if v < 244 {
        985458575654
    } else if v < 245 {
        994685480441
    } else if v < 246 {
        1003962584953
    } else if v < 247 {
        1013289966924
    } else if v < 248 {
        1022667703904
    } else if v < 249 {
        1032095873267
    } else if v < 250 {
        1041574552206
    } else if v < 251 {
        1051103817742
    } else if v < 252 {
        1060683746716
    } else if v < 253 {
        1070314415797
    } else if v < 254 {
        1079995901481
    } else if v < 255 {
        1089728280090
    } else {
        1099511627776
    }
}

/// The curve sample actually used for entry `v`: the raw sample held
/// nondecreasing and within the fixed-point unit. The samples already are
/// both, so this equals `srgb_curve_at(v)`; the guards only make that
/// visible to the verifier, which does not evaluate the whole table.
pub open spec fn curve_value_at(v: int) -> u64
    decreases v,
{
    let raw = srgb_curve_at(v);
    let prev = if v <= 0 {
        0u64
    } else {
        curve_value_at(v - 1)
    };
    let q = if raw < prev {
        prev
    } else {
        raw
    };
    if q > SRGB_ONE {
        SRGB_ONE
    } else {
        q
    }
}

/// A curve value scaled to a channel peak, rounded to nearest and clamped.
pub open spec fn spec_scaled(q: u64, max: u8) -> int {
    let w = (q * max + SRGB_HALF) / (SRGB_ONE as int);
    if w > max {
        max as int
    } else {
        w
    }
}

/// Tables that sample the transfer curve, each channel scaled to its own
/// peak.
pub open spec fn is_srgb_tables(c: &Correction, max_red: u8, max_green: u8, max_blue: u8) -> bool {
    &&& c.wf()
    &&& forall|v: int|
        0 <= v < 256 ==> #[trigger] c.tables().0[v] == spec_scaled(curve_value_at(v), max_red)
    &&& forall|v: int|
        0 <= v < 256 ==> #[trigger] c.tables().1[v] == spec_scaled(curve_value_at(v), max_green)
    &&& forall|v: int|
        0 <= v < 256 ==> #[trigger] c.tables().2[v] == spec_scaled(curve_value_at(v), max_blue)
}

/// Scaling to a peak preserves the order of curve values.
proof fn lemma_scaled_monotone(q1: u64, q2: u64, max: u8)
    requires
        q1 <= q2,
    ensures
        spec_scaled(q1, max) <= spec_scaled(q2, max),
{
    lemma_mul_inequality(q1 as int, q2 as int, max as int);
    lemma_div_is_ordered(
        q1 as int * max as int + SRGB_HALF,
        q2 as int * max as int + SRGB_HALF,
        SRGB_ONE as int,
    );
}

/// Scale the whole curve to one channel's peak: entry `v` is the rounded
/// scaling of the curve sample, so the darkest entry is zero, the
/// brightest is the peak, and the table rises monotonically between them.
fn scale_table(max: u8) -> (t: Vec<u8>)
    ensures
        t@.len() == 256,
        forall|v: int| 0 <= v < 256 ==> #[trigger] t@[v] == spec_scaled(curve_value_at(v), max),
        table_monotone(t@),
        table_bounded(t@, max),
        t@[0] == 0,
        t@[255] == max,
{
    let mut t: Vec<u8> = Vec::new();
    let mut prev_q: u64 = 0;
    let mut v: usize = 0;
    while v < 256
        invariant
            v <= 256,
            t@.len() == v,
            prev_q <= SRGB_ONE,
            v == 0 ==> prev_q == 0,
            v > 0 ==> prev_q == curve_value_at(v - 1),
            forall|j: int| 0 <= j < v ==> #[trigger] t@[j] == spec_scaled(curve_value_at(j), max),
            forall|i: int, j: int| 0 <= i <= j < v ==> t@[i] <= t@[j],
            forall|i: int| 0 <= i < v ==> t@[i] <= max,
            v > 0 ==> t@[v - 1] == spec_scaled(prev_q, max),
            v > 0 ==> t@[0] == 0,
            v == 256 ==> t@[255] == max,
        decreases 256 - v,
    {
        let mut q = curve_entry(v);
        if q < prev_q {
            q = prev_q;
        }
        if q > SRGB_ONE {
            q = SRGB_ONE;
        }
        proof {
            assert(q == curve_value_at(v as int));
            assert(q * (max as u64) <= SRGB_ONE * 255) by (nonlinear_arith)
                requires
                    q <= SRGB_ONE,
                    max <= 255,
            {}
        }
        let wide = (q * (max as u64) + SRGB_HALF) / SRGB_ONE;
        let e = if wide > max as u64 {
            max
        } else {
            wide as u8
        };
        proof {
            assert(e == spec_scaled(q, max));
            if v > 0 {
                lemma_scaled_monotone(prev_q, q, max);
            }
            if v == 0 {
                // The first sample is zero, and half a unit rounds down.
                reveal(srgb_curve_at);
                assert(q == 0);
                assert(e == 0);
            }
            if v == 255 {
                // The last sample is exactly one unit, which scales to the
                // peak: the quotient of `max * 2^40 + 2^39` by `2^40` is
                // `max`.
                reveal(srgb_curve_at);
                assert(q == SRGB_ONE);
                vstd::arithmetic::div_mod::lemma_fundamental_div_mod_converse(
                    SRGB_ONE as int * max as int + SRGB_HALF,
                    SRGB_ONE as int,
                    max as int,
                    SRGB_HALF as int,
                );
                assert(e == max);
            }
        }
        t.push(e);
        prev_q = q;
        v += 1;
    }
    t
}

/// Applying the identity correction returns every pixel unchanged.
pub proof fn lemma_identity_correct(c: &Correction, pix: Pixel)
    requires
        c.wf(),
        c.is_identity(),
    ensures
        c.spec_correct(pix) == pix,
{
}

} // verus!
