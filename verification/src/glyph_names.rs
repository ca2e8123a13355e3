//! PostScript glyph name utilities, based on the Adobe Glyph List For New
//! Fonts (AGLFN): each entry pairs a character with its glyph name, in
//! character order.

use vstd::prelude::*;
use vstd::string::StrSliceExecFns;

verus! {

/// The number of entries in the glyph list.
pub const GLYPH_NAME_COUNT: usize = 603;

/// The glyph list entry at `i`: a character and its glyph name.
pub open spec fn aglfn(i: usize) -> (char, Seq<char>) {
    match i {
        0 => (' ', "space"@),
        1 => ('!', "exclam"@),
        2 => ('"', "quotedbl"@),
        3 => ('#', "numbersign"@),
        4 => ('$', "dollar"@),
        5 => ('%', "percent"@),
        6 => ('&', "ampersand"@),
        7 => ('\'', "quotesingle"@),
        8 => ('(', "parenleft"@),
        9 => (')', "parenright"@),
        10 => ('*', "asterisk"@),
        11 => ('+', "plus"@),
        12 => (',', "comma"@),
        13 => ('-', "hyphen"@),
        14 => ('.', "period"@),
        15 => ('/', "slash"@),
        16 => ('0', "zero"@),
        17 => ('1', "one"@),
        18 => ('2', "two"@),
        19 => ('3', "three"@),
        20 => ('4', "four"@),
        21 => ('5', "five"@),
        22 => ('6', "six"@),
        23 => ('7', "seven"@),
        24 => ('8', "eight"@),
        25 => ('9', "nine"@),
        26 => (':', "colon"@),
        27 => (';', "semicolon"@),
        28 => ('<', "less"@),
        29 => ('=', "equal"@),
        30 => ('>', "greater"@),
        31 => ('?', "question"@),
        32 => ('@', "at"@),
        33 => ('A', "A"@),
        34 => ('B', "B"@),
        35 => ('C', "C"@),
        36 => ('D', "D"@),
        37 => ('E', "E"@),
        38 => ('F', "F"@),
        39 => ('G', "G"@),
        40 => ('H', "H"@),
        41 => ('I', "I"@),
        42 => ('J', "J"@),
        43 => ('K', "K"@),
        44 => ('L', "L"@),
        45 => ('M', "M"@),
        46 => ('N', "N"@),
        47 => ('O', "O"@),
        48 => ('P', "P"@),
        49 => ('Q', "Q"@),
        50 => ('R', "R"@),
        51 => ('S', "S"@),
        52 => ('T', "T"@),
        53 => ('U', "U"@),
        54 => ('V', "V"@),
        55 => ('W', "W"@),
        56 => ('X', "X"@),
        57 => ('Y', "Y"@),
        58 => ('Z', "Z"@),
        59 => ('[', "bracketleft"@),
        60 => ('\\', "backslash"@),
        61 => (']', "bracketright"@),
        62 => ('^', "asciicircum"@),
        63 => ('_', "underscore"@),
        64 => ('`', "grave"@),
        65 => ('a', "a"@),
        66 => ('b', "b"@),
        67 => ('c', "c"@),
        68 => ('d', "d"@),
        69 => ('e', "e"@),
        70 => ('f', "f"@),
        71 => ('g', "g"@),
        72 => ('h', "h"@),
        73 => ('i', "i"@),
        74 => ('j', "j"@),
        75 => ('k', "k"@),
        76 => ('l', "l"@),
        77 => ('m', "m"@),
        78 => ('n', "n"@),
        79 => ('o', "o"@),
        80 => ('p', "p"@),
        81 => ('q', "q"@),
        82 => ('r', "r"@),
        83 => ('s', "s"@),
        84 => ('t', "t"@),
        85 => ('u', "u"@),
        86 => ('v', "v"@),
        87 => ('w', "w"@),
        88 => ('x', "x"@),
        89 => ('y', "y"@),
        90 => ('z', "z"@),
        91 => ('{', "braceleft"@),
        92 => ('|', "bar"@),
        93 => ('}', "braceright"@),
        94 => ('~', "asciitilde"@),
        95 => ('\u{a1}', "exclamdown"@),
        96 => ('\u{a2}', "cent"@),
        97 => ('\u{a3}', "sterling"@),
        98 => ('\u{a4}', "currency"@),
        99 => ('\u{a5}', "yen"@),
        100 => ('\u{a6}', "brokenbar"@),
        101 => ('\u{a7}', "section"@),
        102 => ('\u{a8}', "dieresis"@),
        103 => ('\u{a9}', "copyright"@),
        104 => ('\u{aa}', "ordfeminine"@),
        105 => ('\u{ab}', "guillemotleft"@),
        106 => ('\u{ac}', "logicalnot"@),
        107 => ('\u{ae}', "registered"@),
        108 => ('\u{af}', "macron"@),
        109 => ('\u{b0}', "degree"@),
        110 => ('\u{b1}', "plusminus"@),
        111 => ('\u{b2}', "twosuperior"@),
        112 => ('\u{b3}', "threesuperior"@),
        113 => ('\u{b4}', "acute"@),
        114 => ('\u{b5}', "mu"@),
        115 => ('\u{b6}', "paragraph"@),
        116 => ('\u{b7}', "periodcentered"@),
        117 => ('\u{b8}', "cedilla"@),
        118 => ('\u{b9}', "onesuperior"@),
        119 => ('\u{ba}', "ordmasculine"@),
        120 => ('\u{bb}', "guillemotright"@),
        121 => ('\u{bc}', "onequarter"@),
        122 => ('\u{bd}', "onehalf"@),
        123 => ('\u{be}', "threequarters"@),
        124 => ('\u{bf}', "questiondown"@),
        125 => ('\u{c0}', "Agrave"@),
        126 => ('\u{c1}', "Aacute"@),
        127 => ('\u{c2}', "Acircumflex"@),
        128 => ('\u{c3}', "Atilde"@),
        129 => ('\u{c4}', "Adieresis"@),
        130 => ('\u{c5}', "Aring"@),
        131 => ('\u{c6}', "AE"@),
        132 => ('\u{c7}', "Ccedilla"@),
        133 => ('\u{c8}', "Egrave"@),
        134 => ('\u{c9}', "Eacute"@),
        135 => ('\u{ca}', "Ecircumflex"@),
        136 => ('\u{cb}', "Edieresis"@),
        137 => ('\u{cc}', "Igrave"@),
        138 => ('\u{cd}', "Iacute"@),
        139 => ('\u{ce}', "Icircumflex"@),
        140 => ('\u{cf}', "Idieresis"@),
        141 => ('\u{d0}', "Eth"@),
        142 => ('\u{d1}', "Ntilde"@),
        143 => ('\u{d2}', "Ograve"@),
        144 => ('\u{d3}', "Oacute"@),
        145 => ('\u{d4}', "Ocircumflex"@),
        146 => ('\u{d5}', "Otilde"@),
        147 => ('\u{d6}', "Odieresis"@),
        148 => ('\u{d7}', "multiply"@),
        149 => ('\u{d8}', "Oslash"@),
        150 => ('\u{d9}', "Ugrave"@),
        151 => ('\u{da}', "Uacute"@),
        152 => ('\u{db}', "Ucircumflex"@),
        153 => ('\u{dc}', "Udieresis"@),
        154 => ('\u{dd}', "Yacute"@),
        155 => ('\u{de}', "Thorn"@),
        156 => ('\u{df}', "germandbls"@),
        157 => ('\u{e0}', "agrave"@),
        158 => ('\u{e1}', "aacute"@),
        159 => ('\u{e2}', "acircumflex"@),
        160 => ('\u{e3}', "atilde"@),
        161 => ('\u{e4}', "adieresis"@),
        162 => ('\u{e5}', "aring"@),
        163 => ('\u{e6}', "ae"@),
        164 => ('\u{e7}', "ccedilla"@),
        165 => ('\u{e8}', "egrave"@),
        166 => ('\u{e9}', "eacute"@),
        167 => ('\u{ea}', "ecircumflex"@),
        168 => ('\u{eb}', "edieresis"@),
        169 => ('\u{ec}', "igrave"@),
        170 => ('\u{ed}', "iacute"@),
        171 => ('\u{ee}', "icircumflex"@),
        172 => ('\u{ef}', "idieresis"@),
        173 => ('\u{f0}', "eth"@),
        174 => ('\u{f1}', "ntilde"@),
        175 => ('\u{f2}', "ograve"@),
        176 => ('\u{f3}', "oacute"@),
        177 => ('\u{f4}', "ocircumflex"@),
        178 => ('\u{f5}', "otilde"@),
        179 => ('\u{f6}', "odieresis"@),
        180 => ('\u{f7}', "divide"@),
        181 => ('\u{f8}', "oslash"@),
        182 => ('\u{f9}', "ugrave"@),
        183 => ('\u{fa}', "uacute"@),
        184 => ('\u{fb}', "ucircumflex"@),
        185 => ('\u{fc}', "udieresis"@),
        186 => ('\u{fd}', "yacute"@),
        187 => ('\u{fe}', "thorn"@),
        188 => ('\u{ff}', "ydieresis"@),
        189 => ('\u{100}', "Amacron"@),
        190 => ('\u{101}', "amacron"@),
        191 => ('\u{102}', "Abreve"@),
        192 => ('\u{103}', "abreve"@),
        193 => ('\u{104}', "Aogonek"@),
        194 => ('\u{105}', "aogonek"@),
        195 => ('\u{106}', "Cacute"@),
        196 => ('\u{107}', "cacute"@),
        197 => ('\u{108}', "Ccircumflex"@),
        198 => ('\u{109}', "ccircumflex"@),
        199 => ('\u{10a}', "Cdotaccent"@),
        200 => ('\u{10b}', "cdotaccent"@),
        201 => ('\u{10c}', "Ccaron"@),
        202 => ('\u{10d}', "ccaron"@),
        203 => ('\u{10e}', "Dcaron"@),
        204 => ('\u{10f}', "dcaron"@),
        205 => ('\u{110}', "Dcroat"@),
        206 => ('\u{111}', "dcroat"@),
        207 => ('\u{112}', "Emacron"@),
        208 => ('\u{113}', "emacron"@),
        209 => ('\u{114}', "Ebreve"@),
        210 => ('\u{115}', "ebreve"@),
        211 => ('\u{116}', "Edotaccent"@),
        212 => ('\u{117}', "edotaccent"@),
        213 => ('\u{118}', "Eogonek"@),
        214 => ('\u{119}', "eogonek"@),
        215 => ('\u{11a}', "Ecaron"@),
        216 => ('\u{11b}', "ecaron"@),
        217 => ('\u{11c}', "Gcircumflex"@),
        218 => ('\u{11d}', "gcircumflex"@),
        219 => ('\u{11e}', "Gbreve"@),
        220 => ('\u{11f}', "gbreve"@),
        221 => ('\u{120}', "Gdotaccent"@),
        222 => ('\u{121}', "gdotaccent"@),
        223 => ('\u{122}', "Gcommaaccent"@),
        224 => ('\u{123}', "gcommaaccent"@),
        225 => ('\u{124}', "Hcircumflex"@),
        226 => ('\u{125}', "hcircumflex"@),
        227 => ('\u{126}', "Hbar"@),
        228 => ('\u{127}', "hbar"@),
        229 => ('\u{128}', "Itilde"@),
        230 => ('\u{129}', "itilde"@),
        231 => ('\u{12a}', "Imacron"@),
        232 => ('\u{12b}', "imacron"@),
        233 => ('\u{12c}', "Ibreve"@),
        234 => ('\u{12d}', "ibreve"@),
        235 => ('\u{12e}', "Iogonek"@),
        236 => ('\u{12f}', "iogonek"@),
        237 => ('\u{130}', "Idotaccent"@),
        238 => ('\u{131}', "dotlessi"@),
        239 => ('\u{132}', "IJ"@),
        240 => ('\u{133}', "ij"@),
        241 => ('\u{134}', "Jcircumflex"@),
        242 => ('\u{135}', "jcircumflex"@),
        243 => ('\u{136}', "Kcommaaccent"@),
        244 => ('\u{137}', "kcommaaccent"@),
        245 => ('\u{138}', "kgreenlandic"@),
        246 => ('\u{139}', "Lacute"@),
        247 => ('\u{13a}', "lacute"@),
        248 => ('\u{13b}', "Lcommaaccent"@),
        249 => ('\u{13c}', "lcommaaccent"@),
        250 => ('\u{13d}', "Lcaron"@),
        251 => ('\u{13e}', "lcaron"@),
        252 => ('\u{13f}', "Ldot"@),
        253 => ('\u{140}', "ldot"@),
        254 => ('\u{141}', "Lslash"@),
        255 => ('\u{142}', "lslash"@),
        256 => ('\u{143}', "Nacute"@),
        257 => ('\u{144}', "nacute"@),
        258 => ('\u{145}', "Ncommaaccent"@),
        259 => ('\u{146}', "ncommaaccent"@),
        260 => ('\u{147}', "Ncaron"@),
        261 => ('\u{148}', "ncaron"@),
        262 => ('\u{149}', "napostrophe"@),
        263 => ('\u{14a}', "Eng"@),
        264 => ('\u{14b}', "eng"@),
        265 => ('\u{14c}', "Omacron"@),
        266 => ('\u{14d}', "omacron"@),
        267 => ('\u{14e}', "Obreve"@),
        268 => ('\u{14f}', "obreve"@),
        269 => ('\u{150}', "Ohungarumlaut"@),
        270 => ('\u{151}', "ohungarumlaut"@),
        271 => ('\u{152}', "OE"@),
        272 => ('\u{153}', "oe"@),
        273 => ('\u{154}', "Racute"@),
        274 => ('\u{155}', "racute"@),
        275 => ('\u{156}', "Rcommaaccent"@),
        276 => ('\u{157}', "rcommaaccent"@),
        277 => ('\u{158}', "Rcaron"@),
        278 => ('\u{159}', "rcaron"@),
        279 => ('\u{15a}', "Sacute"@),
        280 => ('\u{15b}', "sacute"@),
        281 => ('\u{15c}', "Scircumflex"@),
        282 => ('\u{15d}', "scircumflex"@),
        283 => ('\u{15e}', "Scedilla"@),
        284 => ('\u{15f}', "scedilla"@),
        285 => ('\u{160}', "Scaron"@),
        286 => ('\u{161}', "scaron"@),
        287 => ('\u{162}', "Tcommaaccent"@),
        288 => ('\u{163}', "tcommaaccent"@),
        289 => ('\u{164}', "Tcaron"@),
        290 => ('\u{165}', "tcaron"@),
        291 => ('\u{166}', "Tbar"@),
        292 => ('\u{167}', "tbar"@),
        293 => ('\u{168}', "Utilde"@),
        294 => ('\u{169}', "utilde"@),
        295 => ('\u{16a}', "Umacron"@),
        296 => ('\u{16b}', "umacron"@),
        297 => ('\u{16c}', "Ubreve"@),
        298 => ('\u{16d}', "ubreve"@),
        299 => ('\u{16e}', "Uring"@),
        300 => ('\u{16f}', "uring"@),
        301 => ('\u{170}', "Uhungarumlaut"@),
        302 => ('\u{171}', "uhungarumlaut"@),
        303 => ('\u{172}', "Uogonek"@),
        304 => ('\u{173}', "uogonek"@),
        305 => ('\u{174}', "Wcircumflex"@),
        306 => ('\u{175}', "wcircumflex"@),
        307 => ('\u{176}', "Ycircumflex"@),
        308 => ('\u{177}', "ycircumflex"@),
        309 => ('\u{178}', "Ydieresis"@),
        310 => ('\u{179}', "Zacute"@),
        311 => ('\u{17a}', "zacute"@),
        312 => ('\u{17b}', "Zdotaccent"@),
        313 => ('\u{17c}', "zdotaccent"@),
        314 => ('\u{17d}', "Zcaron"@),
        315 => ('\u{17e}', "zcaron"@),
        316 => ('\u{17f}', "longs"@),
        317 => ('\u{192}', "florin"@),
        318 => ('\u{1a0}', "Ohorn"@),
        319 => ('\u{1a1}', "ohorn"@),
        320 => ('\u{1af}', "Uhorn"@),
        321 => ('\u{1b0}', "uhorn"@),
        322 => ('\u{1e6}', "Gcaron"@),
        323 => ('\u{1e7}', "gcaron"@),
        324 => ('\u{1fa}', "Aringacute"@),
        325 => ('\u{1fb}', "aringacute"@),
        326 => ('\u{1fc}', "AEacute"@),
        327 => ('\u{1fd}', "aeacute"@),
        328 => ('\u{1fe}', "Oslashacute"@),
        329 => ('\u{1ff}', "oslashacute"@),
        330 => ('\u{218}', "Scommaaccent"@),
        331 => ('\u{219}', "scommaaccent"@),
        332 => ('\u{2c6}', "circumflex"@),
        333 => ('\u{2c7}', "caron"@),
        334 => ('\u{2d8}', "breve"@),
        335 => ('\u{2d9}', "dotaccent"@),
        336 => ('\u{2da}', "ring"@),
        337 => ('\u{2db}', "ogonek"@),
        338 => ('\u{2dc}', "tilde"@),
        339 => ('\u{2dd}', "hungarumlaut"@),
        340 => ('\u{300}', "gravecomb"@),
        341 => ('\u{301}', "acutecomb"@),
        342 => ('\u{303}', "tildecomb"@),
        343 => ('\u{309}', "hookabovecomb"@),
        344 => ('\u{323}', "dotbelowcomb"@),
        345 => ('\u{384}', "tonos"@),
        346 => ('\u{385}', "dieresistonos"@),
        347 => ('\u{386}', "Alphatonos"@),
        348 => ('\u{387}', "anoteleia"@),
        349 => ('\u{388}', "Epsilontonos"@),
        350 => ('\u{389}', "Etatonos"@),
        351 => ('\u{38a}', "Iotatonos"@),
        352 => ('\u{38c}', "Omicrontonos"@),
        353 => ('\u{38e}', "Upsilontonos"@),
        354 => ('\u{38f}', "Omegatonos"@),
        355 => ('\u{390}', "iotadieresistonos"@),
        356 => ('\u{391}', "Alpha"@),
        357 => ('\u{392}', "Beta"@),
        358 => ('\u{393}', "Gamma"@),
        359 => ('\u{395}', "Epsilon"@),
        360 => ('\u{396}', "Zeta"@),
        361 => ('\u{397}', "Eta"@),
        362 => ('\u{398}', "Theta"@),
        363 => ('\u{399}', "Iota"@),
        364 => ('\u{39a}', "Kappa"@),
        365 => ('\u{39b}', "Lambda"@),
        366 => ('\u{39c}', "Mu"@),
        367 => ('\u{39d}', "Nu"@),
        368 => ('\u{39e}', "Xi"@),
        369 => ('\u{39f}', "Omicron"@),
        370 => ('\u{3a0}', "Pi"@),
        371 => ('\u{3a1}', "Rho"@),
        372 => ('\u{3a3}', "Sigma"@),
        373 => ('\u{3a4}', "Tau"@),
        374 => ('\u{3a5}', "Upsilon"@),
        375 => ('\u{3a6}', "Phi"@),
        376 => ('\u{3a7}', "Chi"@),
        377 => ('\u{3a8}', "Psi"@),
        378 => ('\u{3aa}', "Iotadieresis"@),
        379 => ('\u{3ab}', "Upsilondieresis"@),
        380 => ('\u{3ac}', "alphatonos"@),
        381 => ('\u{3ad}', "epsilontonos"@),
        382 => ('\u{3ae}', "etatonos"@),
        383 => ('\u{3af}', "iotatonos"@),
        384 => ('\u{3b0}', "upsilondieresistonos"@),
        385 => ('\u{3b1}', "alpha"@),
        386 => ('\u{3b2}', "beta"@),
        387 => ('\u{3b3}', "gamma"@),
        388 => ('\u{3b4}', "delta"@),
        389 => ('\u{3b5}', "epsilon"@),
        390 => ('\u{3b6}', "zeta"@),
        391 => ('\u{3b7}', "eta"@),
        392 => ('\u{3b8}', "theta"@),
        393 => ('\u{3b9}', "iota"@),
        394 => ('\u{3ba}', "kappa"@),
        395 => ('\u{3bb}', "lambda"@),
        396 => ('\u{3bd}', "nu"@),
        397 => ('\u{3be}', "xi"@),
        398 => ('\u{3bf}', "omicron"@),
        399 => ('\u{3c0}', "pi"@),
        400 => ('\u{3c1}', "rho"@),
        401 => ('\u{3c2}', "sigma1"@),
        402 => ('\u{3c3}', "sigma"@),
        403 => ('\u{3c4}', "tau"@),
        404 => ('\u{3c5}', "upsilon"@),
        405 => ('\u{3c6}', "phi"@),
        406 => ('\u{3c7}', "chi"@),
        407 => ('\u{3c8}', "psi"@),
        408 => ('\u{3c9}', "omega"@),
        409 => ('\u{3ca}', "iotadieresis"@),
        410 => ('\u{3cb}', "upsilondieresis"@),
        411 => ('\u{3cc}', "omicrontonos"@),
        412 => ('\u{3cd}', "upsilontonos"@),
        413 => ('\u{3ce}', "omegatonos"@),
        414 => ('\u{3d1}', "theta1"@),
        415 => ('\u{3d2}', "Upsilon1"@),
        416 => ('\u{3d5}', "phi1"@),
        417 => ('\u{3d6}', "omega1"@),
        418 => ('\u{1e80}', "Wgrave"@),
        419 => ('\u{1e81}', "wgrave"@),
        420 => ('\u{1e82}', "Wacute"@),
        421 => ('\u{1e83}', "wacute"@),
        422 => ('\u{1e84}', "Wdieresis"@),
        423 => ('\u{1e85}', "wdieresis"@),
        424 => ('\u{1ef2}', "Ygrave"@),
        425 => ('\u{1ef3}', "ygrave"@),
        426 => ('\u{2012}', "figuredash"@),
        427 => ('\u{2013}', "endash"@),
        428 => ('\u{2014}', "emdash"@),
        429 => ('\u{2017}', "underscoredbl"@),
        430 => ('\u{2018}', "quoteleft"@),
        431 => ('\u{2019}', "quoteright"@),
        432 => ('\u{201a}', "quotesinglbase"@),
        433 => ('\u{201b}', "quotereversed"@),
        434 => ('\u{201c}', "quotedblleft"@),
        435 => ('\u{201d}', "quotedblright"@),
        436 => ('\u{201e}', "quotedblbase"@),
        437 => ('\u{2020}', "dagger"@),
        438 => ('\u{2021}', "daggerdbl"@),
        439 => ('\u{2022}', "bullet"@),
        440 => ('\u{2024}', "onedotenleader"@),
        441 => ('\u{2025}', "twodotenleader"@),
        442 => ('\u{2026}', "ellipsis"@),
        443 => ('\u{2030}', "perthousand"@),
        444 => ('\u{2032}', "minute"@),
        445 => ('\u{2033}', "second"@),
        446 => ('\u{2039}', "guilsinglleft"@),
        447 => ('\u{203a}', "guilsinglright"@),
        448 => ('\u{203c}', "exclamdbl"@),
        449 => ('\u{2044}', "fraction"@),
        450 => ('\u{20a1}', "colonmonetary"@),
        451 => ('\u{20a3}', "franc"@),
        452 => ('\u{20a4}', "lira"@),
        453 => ('\u{20a7}', "peseta"@),
        454 => ('\u{20ab}', "dong"@),
        455 => ('\u{20ac}', "Euro"@),
        456 => ('\u{2111}', "Ifraktur"@),
        457 => ('\u{2118}', "weierstrass"@),
        458 => ('\u{211c}', "Rfraktur"@),
        459 => ('\u{211e}', "prescription"@),
        460 => ('\u{2122}', "trademark"@),
        461 => ('\u{2126}', "Omega"@),
        462 => ('\u{212e}', "estimated"@),
        463 => ('\u{2135}', "aleph"@),
        464 => ('\u{2153}', "onethird"@),
        465 => ('\u{2154}', "twothirds"@),
        466 => ('\u{215b}', "oneeighth"@),
        467 => ('\u{215c}', "threeeighths"@),
        468 => ('\u{215d}', "fiveeighths"@),
        469 => ('\u{215e}', "seveneighths"@),
        470 => ('\u{2190}', "arrowleft"@),
        471 => ('\u{2191}', "arrowup"@),
        472 => ('\u{2192}', "arrowright"@),
        473 => ('\u{2193}', "arrowdown"@),
        474 => ('\u{2194}', "arrowboth"@),
        475 => ('\u{2195}', "arrowupdn"@),
        476 => ('\u{21a8}', "arrowupdnbse"@),
        477 => ('\u{21b5}', "carriagereturn"@),
        478 => ('\u{21d0}', "arrowdblleft"@),
        479 => ('\u{21d1}', "arrowdblup"@),
        480 => ('\u{21d2}', "arrowdblright"@),
        481 => ('\u{21d3}', "arrowdbldown"@),
        482 => ('\u{21d4}', "arrowdblboth"@),
        483 => ('\u{2200}', "universal"@),
        484 => ('\u{2202}', "partialdiff"@),
        485 => ('\u{2203}', "existential"@),
        486 => ('\u{2205}', "emptyset"@),
        487 => ('\u{2206}', "Delta"@),
        488 => ('\u{2207}', "gradient"@),
        489 => ('\u{2208}', "element"@),
        490 => ('\u{2209}', "notelement"@),
        491 => ('\u{220b}', "suchthat"@),
        492 => ('\u{220f}', "product"@),
        493 => ('\u{2211}', "summation"@),
        494 => ('\u{2212}', "minus"@),
        495 => ('\u{2217}', "asteriskmath"@),
        496 => ('\u{221a}', "radical"@),
        497 => ('\u{221d}', "proportional"@),
        498 => ('\u{221e}', "infinity"@),
        499 => ('\u{221f}', "orthogonal"@),
        500 => ('\u{2220}', "angle"@),
        501 => ('\u{2227}', "logicaland"@),
        502 => ('\u{2228}', "logicalor"@),
        503 => ('\u{2229}', "intersection"@),
        504 => ('\u{222a}', "union"@),
        505 => ('\u{222b}', "integral"@),
        506 => ('\u{2234}', "therefore"@),
        507 => ('\u{223c}', "similar"@),
        508 => ('\u{2245}', "congruent"@),
        509 => ('\u{2248}', "approxequal"@),
        510 => ('\u{2260}', "notequal"@),
        511 => ('\u{2261}', "equivalence"@),
        512 => ('\u{2264}', "lessequal"@),
        513 => ('\u{2265}', "greaterequal"@),
        514 => ('\u{2282}', "propersubset"@),
        515 => ('\u{2283}', "propersuperset"@),
        516 => ('\u{2284}', "notsubset"@),
        517 => ('\u{2286}', "reflexsubset"@),
        518 => ('\u{2287}', "reflexsuperset"@),
        519 => ('\u{2295}', "circleplus"@),
        520 => ('\u{2297}', "circlemultiply"@),
        521 => ('\u{22a5}', "perpendicular"@),
        522 => ('\u{22c5}', "dotmath"@),
        523 => ('\u{2302}', "house"@),
        524 => ('\u{2310}', "revlogicalnot"@),
        525 => ('\u{2320}', "integraltp"@),
        526 => ('\u{2321}', "integralbt"@),
        527 => ('\u{2329}', "angleleft"@),
        528 => ('\u{232a}', "angleright"@),
        529 => ('\u{2500}', "SF100000"@),
        530 => ('\u{2502}', "SF110000"@),
        531 => ('\u{250c}', "SF010000"@),
        532 => ('\u{2510}', "SF030000"@),
        533 => ('\u{2514}', "SF020000"@),
        534 => ('\u{2518}', "SF040000"@),
        535 => ('\u{251c}', "SF080000"@),
        536 => ('\u{2524}', "SF090000"@),
        537 => ('\u{252c}', "SF060000"@),
        538 => ('\u{2534}', "SF070000"@),
        539 => ('\u{253c}', "SF050000"@),
        540 => ('\u{2550}', "SF430000"@),
        541 => ('\u{2551}', "SF240000"@),
        542 => ('\u{2552}', "SF510000"@),
        543 => ('\u{2553}', "SF520000"@),
        544 => ('\u{2554}', "SF390000"@),
        545 => ('\u{2555}', "SF220000"@),
        546 => ('\u{2556}', "SF210000"@),
        547 => ('\u{2557}', "SF250000"@),
        548 => ('\u{2558}', "SF500000"@),
        549 => ('\u{2559}', "SF490000"@),
        550 => ('\u{255a}', "SF380000"@),
        551 => ('\u{255b}', "SF280000"@),
        552 => ('\u{255c}', "SF270000"@),
        553 => ('\u{255d}', "SF260000"@),
        554 => ('\u{255e}', "SF360000"@),
        555 => ('\u{255f}', "SF370000"@),
        556 => ('\u{2560}', "SF420000"@),
        557 => ('\u{2561}', "SF190000"@),
        558 => ('\u{2562}', "SF200000"@),
        559 => ('\u{2563}', "SF230000"@),
        560 => ('\u{2564}', "SF470000"@),
        561 => ('\u{2565}', "SF480000"@),
        562 => ('\u{2566}', "SF410000"@),
        563 => ('\u{2567}', "SF450000"@),
        564 => ('\u{2568}', "SF460000"@),
        565 => ('\u{2569}', "SF400000"@),
        566 => ('\u{256a}', "SF540000"@),
        567 => ('\u{256b}', "SF530000"@),
        568 => ('\u{256c}', "SF440000"@),
        569 => ('\u{2580}', "upblock"@),
        570 => ('\u{2584}', "dnblock"@),
        571 => ('\u{2588}', "block"@),
        572 => ('\u{258c}', "lfblock"@),
        573 => ('\u{2590}', "rtblock"@),
        574 => ('\u{2591}', "ltshade"@),
        575 => ('\u{2592}', "shade"@),
        576 => ('\u{2593}', "dkshade"@),
        577 => ('\u{25a0}', "filledbox"@),
        578 => ('\u{25a1}', "H22073"@),
        579 => ('\u{25aa}', "H18543"@),
        580 => ('\u{25ab}', "H18551"@),
        581 => ('\u{25ac}', "filledrect"@),
        582 => ('\u{25b2}', "triagup"@),
        583 => ('\u{25ba}', "triagrt"@),
        584 => ('\u{25bc}', "triagdn"@),
        585 => ('\u{25c4}', "triaglf"@),
        586 => ('\u{25ca}', "lozenge"@),
        587 => ('\u{25cb}', "circle"@),
        588 => ('\u{25cf}', "H18533"@),
        589 => ('\u{25d8}', "invbullet"@),
        590 => ('\u{25d9}', "invcircle"@),
        591 => ('\u{25e6}', "openbullet"@),
        592 => ('\u{263a}', "smileface"@),
        593 => ('\u{263b}', "invsmileface"@),
        594 => ('\u{263c}', "sun"@),
        595 => ('\u{2640}', "female"@),
        596 => ('\u{2642}', "male"@),
        597 => ('\u{2660}', "spade"@),
        598 => ('\u{2663}', "club"@),
        599 => ('\u{2665}', "heart"@),
        600 => ('\u{2666}', "diamond"@),
        601 => ('\u{266a}', "musicalnote"@),
        602 => ('\u{266b}', "musicalnotedbl"@),
        _ => (' ', Seq::empty()),
    }
}

/// The glyph list entry at `i`.
fn aglfn_entry(i: usize) -> (r: (char, &'static str))
    requires
        i < GLYPH_NAME_COUNT,
    ensures
        r.0 == aglfn(i).0,
        r.1@ == aglfn(i).1,
{
    match i {
        0 => (' ', "space"),
        1 => ('!', "exclam"),
        2 => ('"', "quotedbl"),
        3 => ('#', "numbersign"),
        4 => ('$', "dollar"),
        5 => ('%', "percent"),
        6 => ('&', "ampersand"),
        7 => ('\'', "quotesingle"),
        8 => ('(', "parenleft"),
        9 => (')', "parenright"),
        10 => ('*', "asterisk"),
        11 => ('+', "plus"),
        12 => (',', "comma"),
        13 => ('-', "hyphen"),
        14 => ('.', "period"),
        15 => ('/', "slash"),
        16 => ('0', "zero"),
        17 => ('1', "one"),
        18 => ('2', "two"),
        19 => ('3', "three"),
        20 => ('4', "four"),
        21 => ('5', "five"),
        22 => ('6', "six"),
        23 => ('7', "seven"),
        24 => ('8', "eight"),
        25 => ('9', "nine"),
        26 => (':', "colon"),
        27 => (';', "semicolon"),
        28 => ('<', "less"),
        29 => ('=', "equal"),
        30 => ('>', "greater"),
        31 => ('?', "question"),
        32 => ('@', "at"),
        33 => ('A', "A"),
        34 => ('B', "B"),
        35 => ('C', "C"),
        36 => ('D', "D"),
        37 => ('E', "E"),
        38 => ('F', "F"),
        39 => ('G', "G"),
        40 => ('H', "H"),
        41 => ('I', "I"),
        42 => ('J', "J"),
        43 => ('K', "K"),
        44 => ('L', "L"),
        45 => ('M', "M"),
        46 => ('N', "N"),
        47 => ('O', "O"),
        48 => ('P', "P"),
        49 => ('Q', "Q"),
        50 => ('R', "R"),
        51 => ('S', "S"),
        52 => ('T', "T"),
        53 => ('U', "U"),
        54 => ('V', "V"),
        55 => ('W', "W"),
        56 => ('X', "X"),
        57 => ('Y', "Y"),
        58 => ('Z', "Z"),
        59 => ('[', "bracketleft"),
        60 => ('\\', "backslash"),
        61 => (']', "bracketright"),
        62 => ('^', "asciicircum"),
        63 => ('_', "underscore"),
        64 => ('`', "grave"),
        65 => ('a', "a"),
        66 => ('b', "b"),
        67 => ('c', "c"),
        68 => ('d', "d"),
        69 => ('e', "e"),
        70 => ('f', "f"),
        71 => ('g', "g"),
        72 => ('h', "h"),
        73 => ('i', "i"),
        74 => ('j', "j"),
        75 => ('k', "k"),
        76 => ('l', "l"),
        77 => ('m', "m"),
        78 => ('n', "n"),
        79 => ('o', "o"),
        80 => ('p', "p"),
        81 => ('q', "q"),
        82 => ('r', "r"),
        83 => ('s', "s"),
        84 => ('t', "t"),
        85 => ('u', "u"),
        86 => ('v', "v"),
        87 => ('w', "w"),
        88 => ('x', "x"),
        89 => ('y', "y"),
        90 => ('z', "z"),
        91 => ('{', "braceleft"),
        92 => ('|', "bar"),
        93 => ('}', "braceright"),
        94 => ('~', "asciitilde"),
        95 => ('\u{a1}', "exclamdown"),
        96 => ('\u{a2}', "cent"),
        97 => ('\u{a3}', "sterling"),
        98 => ('\u{a4}', "currency"),
        99 => ('\u{a5}', "yen"),
        100 => ('\u{a6}', "brokenbar"),
        101 => ('\u{a7}', "section"),
        102 => ('\u{a8}', "dieresis"),
        103 => ('\u{a9}', "copyright"),
        104 => ('\u{aa}', "ordfeminine"),
        105 => ('\u{ab}', "guillemotleft"),
        106 => ('\u{ac}', "logicalnot"),
        107 => ('\u{ae}', "registered"),
        108 => ('\u{af}', "macron"),
        109 => ('\u{b0}', "degree"),
        110 => ('\u{b1}', "plusminus"),
        111 => ('\u{b2}', "twosuperior"),
        112 => ('\u{b3}', "threesuperior"),
        113 => ('\u{b4}', "acute"),
        114 => ('\u{b5}', "mu"),
        115 => ('\u{b6}', "paragraph"),
        116 => ('\u{b7}', "periodcentered"),
        117 => ('\u{b8}', "cedilla"),
        118 => ('\u{b9}', "onesuperior"),
        119 => ('\u{ba}', "ordmasculine"),
        120 => ('\u{bb}', "guillemotright"),
        121 => ('\u{bc}', "onequarter"),
        122 => ('\u{bd}', "onehalf"),
        123 => ('\u{be}', "threequarters"),
        124 => ('\u{bf}', "questiondown"),
        125 => ('\u{c0}', "Agrave"),
        126 => ('\u{c1}', "Aacute"),
        127 => ('\u{c2}', "Acircumflex"),
        128 => ('\u{c3}', "Atilde"),
        129 => ('\u{c4}', "Adieresis"),
        130 => ('\u{c5}', "Aring"),
        131 => ('\u{c6}', "AE"),
        132 => ('\u{c7}', "Ccedilla"),
        133 => ('\u{c8}', "Egrave"),
        134 => ('\u{c9}', "Eacute"),
        135 => ('\u{ca}', "Ecircumflex"),
        136 => ('\u{cb}', "Edieresis"),
        137 => ('\u{cc}', "Igrave"),
        138 => ('\u{cd}', "Iacute"),
        139 => ('\u{ce}', "Icircumflex"),
        140 => ('\u{cf}', "Idieresis"),
        141 => ('\u{d0}', "Eth"),
        142 => ('\u{d1}', "Ntilde"),
        143 => ('\u{d2}', "Ograve"),
        144 => ('\u{d3}', "Oacute"),
        145 => ('\u{d4}', "Ocircumflex"),
        146 => ('\u{d5}', "Otilde"),
        147 => ('\u{d6}', "Odieresis"),
        148 => ('\u{d7}', "multiply"),
        149 => ('\u{d8}', "Oslash"),
        150 => ('\u{d9}', "Ugrave"),
        151 => ('\u{da}', "Uacute"),
        152 => ('\u{db}', "Ucircumflex"),
        153 => ('\u{dc}', "Udieresis"),
        154 => ('\u{dd}', "Yacute"),
        155 => ('\u{de}', "Thorn"),
        156 => ('\u{df}', "germandbls"),
        157 => ('\u{e0}', "agrave"),
        158 => ('\u{e1}', "aacute"),
        159 => ('\u{e2}', "acircumflex"),
        160 => ('\u{e3}', "atilde"),
        161 => ('\u{e4}', "adieresis"),
        162 => ('\u{e5}', "aring"),
        163 => ('\u{e6}', "ae"),
        164 => ('\u{e7}', "ccedilla"),
        165 => ('\u{e8}', "egrave"),
        166 => ('\u{e9}', "eacute"),
        167 => ('\u{ea}', "ecircumflex"),
        168 => ('\u{eb}', "edieresis"),
        169 => ('\u{ec}', "igrave"),
        170 => ('\u{ed}', "iacute"),
        171 => ('\u{ee}', "icircumflex"),
        172 => ('\u{ef}', "idieresis"),
        173 => ('\u{f0}', "eth"),
        174 => ('\u{f1}', "ntilde"),
        175 => ('\u{f2}', "ograve"),
        176 => ('\u{f3}', "oacute"),
        177 => ('\u{f4}', "ocircumflex"),
        178 => ('\u{f5}', "otilde"),
        179 => ('\u{f6}', "odieresis"),
        180 => ('\u{f7}', "divide"),
        181 => ('\u{f8}', "oslash"),
        182 => ('\u{f9}', "ugrave"),
        183 => ('\u{fa}', "uacute"),
        184 => ('\u{fb}', "ucircumflex"),
        185 => ('\u{fc}', "udieresis"),
        186 => ('\u{fd}', "yacute"),
        187 => ('\u{fe}', "thorn"),
        188 => ('\u{ff}', "ydieresis"),
        189 => ('\u{100}', "Amacron"),
        190 => ('\u{101}', "amacron"),
        191 => ('\u{102}', "Abreve"),
        192 => ('\u{103}', "abreve"),
        193 => ('\u{104}', "Aogonek"),
        194 => ('\u{105}', "aogonek"),
        195 => ('\u{106}', "Cacute"),
        196 => ('\u{107}', "cacute"),
        197 => ('\u{108}', "Ccircumflex"),
        198 => ('\u{109}', "ccircumflex"),
        199 => ('\u{10a}', "Cdotaccent"),
        200 => ('\u{10b}', "cdotaccent"),
        201 => ('\u{10c}', "Ccaron"),
        202 => ('\u{10d}', "ccaron"),
        203 => ('\u{10e}', "Dcaron"),
        204 => ('\u{10f}', "dcaron"),
        205 => ('\u{110}', "Dcroat"),
        206 => ('\u{111}', "dcroat"),
        207 => ('\u{112}', "Emacron"),
        208 => ('\u{113}', "emacron"),
        209 => ('\u{114}', "Ebreve"),
        210 => ('\u{115}', "ebreve"),
        211 => ('\u{116}', "Edotaccent"),
        212 => ('\u{117}', "edotaccent"),
        213 => ('\u{118}', "Eogonek"),
        214 => ('\u{119}', "eogonek"),
        215 => ('\u{11a}', "Ecaron"),
        216 => ('\u{11b}', "ecaron"),
        217 => ('\u{11c}', "Gcircumflex"),
        218 => ('\u{11d}', "gcircumflex"),
        219 => ('\u{11e}', "Gbreve"),
        220 => ('\u{11f}', "gbreve"),
        221 => ('\u{120}', "Gdotaccent"),
        222 => ('\u{121}', "gdotaccent"),
        223 => ('\u{122}', "Gcommaaccent"),
        224 => ('\u{123}', "gcommaaccent"),
        225 => ('\u{124}', "Hcircumflex"),
        226 => ('\u{125}', "hcircumflex"),
        227 => ('\u{126}', "Hbar"),
        228 => ('\u{127}', "hbar"),
        229 => ('\u{128}', "Itilde"),
        230 => ('\u{129}', "itilde"),
        231 => ('\u{12a}', "Imacron"),
        232 => ('\u{12b}', "imacron"),
        233 => ('\u{12c}', "Ibreve"),
        234 => ('\u{12d}', "ibreve"),
        235 => ('\u{12e}', "Iogonek"),
        236 => ('\u{12f}', "iogonek"),
        237 => ('\u{130}', "Idotaccent"),
        238 => ('\u{131}', "dotlessi"),
        239 => ('\u{132}', "IJ"),
        240 => ('\u{133}', "ij"),
        241 => ('\u{134}', "Jcircumflex"),
        242 => ('\u{135}', "jcircumflex"),
        243 => ('\u{136}', "Kcommaaccent"),
        244 => ('\u{137}', "kcommaaccent"),
        245 => ('\u{138}', "kgreenlandic"),
        246 => ('\u{139}', "Lacute"),
        247 => ('\u{13a}', "lacute"),
        248 => ('\u{13b}', "Lcommaaccent"),
        249 => ('\u{13c}', "lcommaaccent"),
        250 => ('\u{13d}', "Lcaron"),
        251 => ('\u{13e}', "lcaron"),
        252 => ('\u{13f}', "Ldot"),
        253 => ('\u{140}', "ldot"),
        254 => ('\u{141}', "Lslash"),
        255 => ('\u{142}', "lslash"),
        256 => ('\u{143}', "Nacute"),
        257 => ('\u{144}', "nacute"),
        258 => ('\u{145}', "Ncommaaccent"),
        259 => ('\u{146}', "ncommaaccent"),
        260 => ('\u{147}', "Ncaron"),
        261 => ('\u{148}', "ncaron"),
        262 => ('\u{149}', "napostrophe"),
        263 => ('\u{14a}', "Eng"),
        264 => ('\u{14b}', "eng"),
        265 => ('\u{14c}', "Omacron"),
        266 => ('\u{14d}', "omacron"),
        267 => ('\u{14e}', "Obreve"),
        268 => ('\u{14f}', "obreve"),
        269 => ('\u{150}', "Ohungarumlaut"),
        270 => ('\u{151}', "ohungarumlaut"),
        271 => ('\u{152}', "OE"),
        272 => ('\u{153}', "oe"),
        273 => ('\u{154}', "Racute"),
        274 => ('\u{155}', "racute"),
        275 => ('\u{156}', "Rcommaaccent"),
        276 => ('\u{157}', "rcommaaccent"),
        277 => ('\u{158}', "Rcaron"),
        278 => ('\u{159}', "rcaron"),
        279 => ('\u{15a}', "Sacute"),
        280 => ('\u{15b}', "sacute"),
        281 => ('\u{15c}', "Scircumflex"),
        282 => ('\u{15d}', "scircumflex"),
        283 => ('\u{15e}', "Scedilla"),
        284 => ('\u{15f}', "scedilla"),
        285 => ('\u{160}', "Scaron"),
        286 => ('\u{161}', "scaron"),
        287 => ('\u{162}', "Tcommaaccent"),
        288 => ('\u{163}', "tcommaaccent"),
        289 => ('\u{164}', "Tcaron"),
        290 => ('\u{165}', "tcaron"),
        291 => ('\u{166}', "Tbar"),
        292 => ('\u{167}', "tbar"),
        293 => ('\u{168}', "Utilde"),
        294 => ('\u{169}', "utilde"),
        295 => ('\u{16a}', "Umacron"),
        296 => ('\u{16b}', "umacron"),
        297 => ('\u{16c}', "Ubreve"),
        298 => ('\u{16d}', "ubreve"),
        299 => ('\u{16e}', "Uring"),
        300 => ('\u{16f}', "uring"),
        301 => ('\u{170}', "Uhungarumlaut"),
        302 => ('\u{171}', "uhungarumlaut"),
        303 => ('\u{172}', "Uogonek"),
        304 => ('\u{173}', "uogonek"),
        305 => ('\u{174}', "Wcircumflex"),
        306 => ('\u{175}', "wcircumflex"),
        307 => ('\u{176}', "Ycircumflex"),
        308 => ('\u{177}', "ycircumflex"),
        309 => ('\u{178}', "Ydieresis"),
        310 => ('\u{179}', "Zacute"),
        311 => ('\u{17a}', "zacute"),
        312 => ('\u{17b}', "Zdotaccent"),
        313 => ('\u{17c}', "zdotaccent"),
        314 => ('\u{17d}', "Zcaron"),
        315 => ('\u{17e}', "zcaron"),
        316 => ('\u{17f}', "longs"),
        317 => ('\u{192}', "florin"),
        318 => ('\u{1a0}', "Ohorn"),
        319 => ('\u{1a1}', "ohorn"),
        320 => ('\u{1af}', "Uhorn"),
        321 => ('\u{1b0}', "uhorn"),
        322 => ('\u{1e6}', "Gcaron"),
        323 => ('\u{1e7}', "gcaron"),
        324 => ('\u{1fa}', "Aringacute"),
        325 => ('\u{1fb}', "aringacute"),
        326 => ('\u{1fc}', "AEacute"),
        327 => ('\u{1fd}', "aeacute"),
        328 => ('\u{1fe}', "Oslashacute"),
        329 => ('\u{1ff}', "oslashacute"),
        330 => ('\u{218}', "Scommaaccent"),
        331 => ('\u{219}', "scommaaccent"),
        332 => ('\u{2c6}', "circumflex"),
        333 => ('\u{2c7}', "caron"),
        334 => ('\u{2d8}', "breve"),
        335 => ('\u{2d9}', "dotaccent"),
        336 => ('\u{2da}', "ring"),
        337 => ('\u{2db}', "ogonek"),
        338 => ('\u{2dc}', "tilde"),
        339 => ('\u{2dd}', "hungarumlaut"),
        340 => ('\u{300}', "gravecomb"),
        341 => ('\u{301}', "acutecomb"),
        342 => ('\u{303}', "tildecomb"),
        343 => ('\u{309}', "hookabovecomb"),
        344 => ('\u{323}', "dotbelowcomb"),
        345 => ('\u{384}', "tonos"),
        346 => ('\u{385}', "dieresistonos"),
        347 => ('\u{386}', "Alphatonos"),
        348 => ('\u{387}', "anoteleia"),
        349 => ('\u{388}', "Epsilontonos"),
        350 => ('\u{389}', "Etatonos"),
        351 => ('\u{38a}', "Iotatonos"),
        352 => ('\u{38c}', "Omicrontonos"),
        353 => ('\u{38e}', "Upsilontonos"),
        354 => ('\u{38f}', "Omegatonos"),
        355 => ('\u{390}', "iotadieresistonos"),
        356 => ('\u{391}', "Alpha"),
        357 => ('\u{392}', "Beta"),
        358 => ('\u{393}', "Gamma"),
        359 => ('\u{395}', "Epsilon"),
        360 => ('\u{396}', "Zeta"),
        361 => ('\u{397}', "Eta"),
        362 => ('\u{398}', "Theta"),
        363 => ('\u{399}', "Iota"),
        364 => ('\u{39a}', "Kappa"),
        365 => ('\u{39b}', "Lambda"),
        366 => ('\u{39c}', "Mu"),
        367 => ('\u{39d}', "Nu"),
        368 => ('\u{39e}', "Xi"),
        369 => ('\u{39f}', "Omicron"),
        370 => ('\u{3a0}', "Pi"),
        371 => ('\u{3a1}', "Rho"),
        372 => ('\u{3a3}', "Sigma"),
        373 => ('\u{3a4}', "Tau"),
        374 => ('\u{3a5}', "Upsilon"),
        375 => ('\u{3a6}', "Phi"),
        376 => ('\u{3a7}', "Chi"),
        377 => ('\u{3a8}', "Psi"),
        378 => ('\u{3aa}', "Iotadieresis"),
        379 => ('\u{3ab}', "Upsilondieresis"),
        380 => ('\u{3ac}', "alphatonos"),
        381 => ('\u{3ad}', "epsilontonos"),
        382 => ('\u{3ae}', "etatonos"),
        383 => ('\u{3af}', "iotatonos"),
        384 => ('\u{3b0}', "upsilondieresistonos"),
        385 => ('\u{3b1}', "alpha"),
        386 => ('\u{3b2}', "beta"),
        387 => ('\u{3b3}', "gamma"),
        388 => ('\u{3b4}', "delta"),
        389 => ('\u{3b5}', "epsilon"),
        390 => ('\u{3b6}', "zeta"),
        391 => ('\u{3b7}', "eta"),
        392 => ('\u{3b8}', "theta"),
        393 => ('\u{3b9}', "iota"),
        394 => ('\u{3ba}', "kappa"),
        395 => ('\u{3bb}', "lambda"),
        396 => ('\u{3bd}', "nu"),
        397 => ('\u{3be}', "xi"),
        398 => ('\u{3bf}', "omicron"),
        399 => ('\u{3c0}', "pi"),
        400 => ('\u{3c1}', "rho"),
        401 => ('\u{3c2}', "sigma1"),
        402 => ('\u{3c3}', "sigma"),
        403 => ('\u{3c4}', "tau"),
        404 => ('\u{3c5}', "upsilon"),
        405 => ('\u{3c6}', "phi"),
        406 => ('\u{3c7}', "chi"),
        407 => ('\u{3c8}', "psi"),
        408 => ('\u{3c9}', "omega"),
        409 => ('\u{3ca}', "iotadieresis"),
        410 => ('\u{3cb}', "upsilondieresis"),
        411 => ('\u{3cc}', "omicrontonos"),
        412 => ('\u{3cd}', "upsilontonos"),
        413 => ('\u{3ce}', "omegatonos"),
        414 => ('\u{3d1}', "theta1"),
        415 => ('\u{3d2}', "Upsilon1"),
        416 => ('\u{3d5}', "phi1"),
        417 => ('\u{3d6}', "omega1"),
        418 => ('\u{1e80}', "Wgrave"),
        419 => ('\u{1e81}', "wgrave"),
        420 => ('\u{1e82}', "Wacute"),
        421 => ('\u{1e83}', "wacute"),
        422 => ('\u{1e84}', "Wdieresis"),
        423 => ('\u{1e85}', "wdieresis"),
        424 => ('\u{1ef2}', "Ygrave"),
        425 => ('\u{1ef3}', "ygrave"),
        426 => ('\u{2012}', "figuredash"),
        427 => ('\u{2013}', "endash"),
        428 => ('\u{2014}', "emdash"),
        429 => ('\u{2017}', "underscoredbl"),
        430 => ('\u{2018}', "quoteleft"),
        431 => ('\u{2019}', "quoteright"),
        432 => ('\u{201a}', "quotesinglbase"),
        433 => ('\u{201b}', "quotereversed"),
        434 => ('\u{201c}', "quotedblleft"),
        435 => ('\u{201d}', "quotedblright"),
        436 => ('\u{201e}', "quotedblbase"),
        437 => ('\u{2020}', "dagger"),
        438 => ('\u{2021}', "daggerdbl"),
        439 => ('\u{2022}', "bullet"),
        440 => ('\u{2024}', "onedotenleader"),
        441 => ('\u{2025}', "twodotenleader"),
        442 => ('\u{2026}', "ellipsis"),
        443 => ('\u{2030}', "perthousand"),
        444 => ('\u{2032}', "minute"),
        445 => ('\u{2033}', "second"),
        446 => ('\u{2039}', "guilsinglleft"),
        447 => ('\u{203a}', "guilsinglright"),
        448 => ('\u{203c}', "exclamdbl"),
        449 => ('\u{2044}', "fraction"),
        450 => ('\u{20a1}', "colonmonetary"),
        451 => ('\u{20a3}', "franc"),
        452 => ('\u{20a4}', "lira"),
        453 => ('\u{20a7}', "peseta"),
        454 => ('\u{20ab}', "dong"),
        455 => ('\u{20ac}', "Euro"),
        456 => ('\u{2111}', "Ifraktur"),
        457 => ('\u{2118}', "weierstrass"),
        458 => ('\u{211c}', "Rfraktur"),
        459 => ('\u{211e}', "prescription"),
        460 => ('\u{2122}', "trademark"),
        461 => ('\u{2126}', "Omega"),
        462 => ('\u{212e}', "estimated"),
        463 => ('\u{2135}', "aleph"),
        464 => ('\u{2153}', "onethird"),
        465 => ('\u{2154}', "twothirds"),
        466 => ('\u{215b}', "oneeighth"),
        467 => ('\u{215c}', "threeeighths"),
        468 => ('\u{215d}', "fiveeighths"),
        469 => ('\u{215e}', "seveneighths"),
        470 => ('\u{2190}', "arrowleft"),
        471 => ('\u{2191}', "arrowup"),
        472 => ('\u{2192}', "arrowright"),
        473 => ('\u{2193}', "arrowdown"),
        474 => ('\u{2194}', "arrowboth"),
        475 => ('\u{2195}', "arrowupdn"),
        476 => ('\u{21a8}', "arrowupdnbse"),
        477 => ('\u{21b5}', "carriagereturn"),
        478 => ('\u{21d0}', "arrowdblleft"),
        479 => ('\u{21d1}', "arrowdblup"),
        480 => ('\u{21d2}', "arrowdblright"),
        481 => ('\u{21d3}', "arrowdbldown"),
        482 => ('\u{21d4}', "arrowdblboth"),
        483 => ('\u{2200}', "universal"),
        484 => ('\u{2202}', "partialdiff"),
        485 => ('\u{2203}', "existential"),
        486 => ('\u{2205}', "emptyset"),
        487 => ('\u{2206}', "Delta"),
        488 => ('\u{2207}', "gradient"),
        489 => ('\u{2208}', "element"),
        490 => ('\u{2209}', "notelement"),
        491 => ('\u{220b}', "suchthat"),
        492 => ('\u{220f}', "product"),
        493 => ('\u{2211}', "summation"),
        494 => ('\u{2212}', "minus"),
        495 => ('\u{2217}', "asteriskmath"),
        496 => ('\u{221a}', "radical"),
        497 => ('\u{221d}', "proportional"),
        498 => ('\u{221e}', "infinity"),
        499 => ('\u{221f}', "orthogonal"),
        500 => ('\u{2220}', "angle"),
        501 => ('\u{2227}', "logicaland"),
        502 => ('\u{2228}', "logicalor"),
        503 => ('\u{2229}', "intersection"),
        504 => ('\u{222a}', "union"),
        505 => ('\u{222b}', "integral"),
        506 => ('\u{2234}', "therefore"),
        507 => ('\u{223c}', "similar"),
        508 => ('\u{2245}', "congruent"),
        509 => ('\u{2248}', "approxequal"),
        510 => ('\u{2260}', "notequal"),
        511 => ('\u{2261}', "equivalence"),
        512 => ('\u{2264}', "lessequal"),
        513 => ('\u{2265}', "greaterequal"),
        514 => ('\u{2282}', "propersubset"),
        515 => ('\u{2283}', "propersuperset"),
        516 => ('\u{2284}', "notsubset"),
        517 => ('\u{2286}', "reflexsubset"),
        518 => ('\u{2287}', "reflexsuperset"),
        519 => ('\u{2295}', "circleplus"),
        520 => ('\u{2297}', "circlemultiply"),
        521 => ('\u{22a5}', "perpendicular"),
        522 => ('\u{22c5}', "dotmath"),
        523 => ('\u{2302}', "house"),
        524 => ('\u{2310}', "revlogicalnot"),
        525 => ('\u{2320}', "integraltp"),
        526 => ('\u{2321}', "integralbt"),
        527 => ('\u{2329}', "angleleft"),
        528 => ('\u{232a}', "angleright"),
        529 => ('\u{2500}', "SF100000"),
        530 => ('\u{2502}', "SF110000"),
        531 => ('\u{250c}', "SF010000"),
        532 => ('\u{2510}', "SF030000"),
        533 => ('\u{2514}', "SF020000"),
        534 => ('\u{2518}', "SF040000"),
        535 => ('\u{251c}', "SF080000"),
        536 => ('\u{2524}', "SF090000"),
        537 => ('\u{252c}', "SF060000"),
        538 => ('\u{2534}', "SF070000"),
        539 => ('\u{253c}', "SF050000"),
        540 => ('\u{2550}', "SF430000"),
        541 => ('\u{2551}', "SF240000"),
        542 => ('\u{2552}', "SF510000"),
        543 => ('\u{2553}', "SF520000"),
        544 => ('\u{2554}', "SF390000"),
        545 => ('\u{2555}', "SF220000"),
        546 => ('\u{2556}', "SF210000"),
        547 => ('\u{2557}', "SF250000"),
        548 => ('\u{2558}', "SF500000"),
        549 => ('\u{2559}', "SF490000"),
        550 => ('\u{255a}', "SF380000"),
        551 => ('\u{255b}', "SF280000"),
        552 => ('\u{255c}', "SF270000"),
        553 => ('\u{255d}', "SF260000"),
        554 => ('\u{255e}', "SF360000"),
        555 => ('\u{255f}', "SF370000"),
        556 => ('\u{2560}', "SF420000"),
        557 => ('\u{2561}', "SF190000"),
        558 => ('\u{2562}', "SF200000"),
        559 => ('\u{2563}', "SF230000"),
        560 => ('\u{2564}', "SF470000"),
        561 => ('\u{2565}', "SF480000"),
        562 => ('\u{2566}', "SF410000"),
        563 => ('\u{2567}', "SF450000"),
        564 => ('\u{2568}', "SF460000"),
        565 => ('\u{2569}', "SF400000"),
        566 => ('\u{256a}', "SF540000"),
        567 => ('\u{256b}', "SF530000"),
        568 => ('\u{256c}', "SF440000"),
        569 => ('\u{2580}', "upblock"),
        570 => ('\u{2584}', "dnblock"),
        571 => ('\u{2588}', "block"),
        572 => ('\u{258c}', "lfblock"),
        573 => ('\u{2590}', "rtblock"),
        574 => ('\u{2591}', "ltshade"),
        575 => ('\u{2592}', "shade"),
        576 => ('\u{2593}', "dkshade"),
        577 => ('\u{25a0}', "filledbox"),
        578 => ('\u{25a1}', "H22073"),
        579 => ('\u{25aa}', "H18543"),
        580 => ('\u{25ab}', "H18551"),
        581 => ('\u{25ac}', "filledrect"),
        582 => ('\u{25b2}', "triagup"),
        583 => ('\u{25ba}', "triagrt"),
        584 => ('\u{25bc}', "triagdn"),
        585 => ('\u{25c4}', "triaglf"),
        586 => ('\u{25ca}', "lozenge"),
        587 => ('\u{25cb}', "circle"),
        588 => ('\u{25cf}', "H18533"),
        589 => ('\u{25d8}', "invbullet"),
        590 => ('\u{25d9}', "invcircle"),
        591 => ('\u{25e6}', "openbullet"),
        592 => ('\u{263a}', "smileface"),
        593 => ('\u{263b}', "invsmileface"),
        594 => ('\u{263c}', "sun"),
        595 => ('\u{2640}', "female"),
        596 => ('\u{2642}', "male"),
        597 => ('\u{2660}', "spade"),
        598 => ('\u{2663}', "club"),
        599 => ('\u{2665}', "heart"),
        600 => ('\u{2666}', "diamond"),
        601 => ('\u{266a}', "musicalnote"),
        602 => ('\u{266b}', "musicalnotedbl"),
        _ => (' ', ""),
    }
}

/// The index of the first entry from `i` on whose character is `chr`.
pub open spec fn char_index_from(chr: char, i: int) -> Option<int>
    decreases GLYPH_NAME_COUNT - i,
{
    if i < 0 || i >= GLYPH_NAME_COUNT {
        None
    } else if aglfn(i as usize).0 == chr {
        Some(i)
    } else {
        char_index_from(chr, i + 1)
    }
}

/// The index of the first entry from `i` on whose name is `name`.
pub open spec fn name_index_from(name: Seq<char>, i: int) -> Option<int>
    decreases GLYPH_NAME_COUNT - i,
{
    if i < 0 || i >= GLYPH_NAME_COUNT {
        None
    } else if aglfn(i as usize).1 == name {
        Some(i)
    } else {
        name_index_from(name, i + 1)
    }
}

/// The glyph list's name for `chr`, if it has one.
pub open spec fn name_for_char(chr: char) -> Option<Seq<char>> {
    match char_index_from(chr, 0) {
        Some(i) => Some(aglfn(i as usize).1),
        None => None,
    }
}

/// The name for a glyph made of exactly one character.
pub open spec fn name_for_glyph(glyph: Seq<char>) -> Option<Seq<char>> {
    if glyph.len() == 1 {
        name_for_char(glyph[0])
    } else {
        None
    }
}

/// A character allowed in a glyph name.
pub open spec fn is_name_char(c: char) -> bool {
    ('a' <= c && c <= 'z') || ('A' <= c && c <= 'Z') || ('0' <= c && c <= '9') || c == '.' || c == '_'
}

/// A name made only of a-z, A-Z, 0-9, '.' and '_'.
pub open spec fn valid_glyph_name(name: Seq<char>) -> bool {
    forall|i: int| 0 <= i < name.len() ==> is_name_char(#[trigger] name[i])
}

/// The code points guessed for a glyph name: the character of the first
/// entry with that name, or else the name's only character.
pub open spec fn codepoints_spec(name: Seq<char>) -> Option<Seq<char>> {
    match name_index_from(name, 0) {
        Some(i) => Some(seq![aglfn(i as usize).0]),
        None => if name.len() == 1 {
            Some(seq![name[0]])
        } else {
            None
        },
    }
}

/// Given a `char`, the PostScript name for that `char`'s glyph, if one
/// exists in the glyph list.
pub fn glyph_name_for_char(chr: char) -> (r: Option<&'static str>)
    ensures
        r matches Some(n) ==> name_for_char(chr) == Some(n@),
        r is None ==> name_for_char(chr) is None,
{
    let mut i: usize = 0;
    while i < GLYPH_NAME_COUNT
        invariant
            0 <= i <= GLYPH_NAME_COUNT,
            char_index_from(chr, 0) == char_index_from(chr, i as int),
        decreases GLYPH_NAME_COUNT - i,
    {
        let (c, name) = aglfn_entry(i);
        if c == chr {
            return Some(name);
        }
        i += 1;
    }
    None
}

/// Given a glyph, its PostScript name, if it exists in the glyph list.
///
/// This returns `None` if there is more than one `char` in the glyph.
pub fn glyph_name_for_glyph(glyph: &str) -> (r: Option<&'static str>)
    ensures
        r matches Some(n) ==> name_for_glyph(glyph@) == Some(n@),
        r is None ==> name_for_glyph(glyph@) is None,
{
    if glyph.unicode_len() == 1 {
        glyph_name_for_char(glyph.get_char(0))
    } else {
        None
    }
}

/// Whether a name is made only of a-z, A-Z, 0-9, '.' and '_'.
pub fn is_valid_glyph_name(name: &str) -> (r: bool)
    ensures
        r == valid_glyph_name(name@),
{
    let n = name.unicode_len();
    let mut i: usize = 0;
    while i < n
        invariant
            n == name@.len(),
            0 <= i <= n,
            forall|j: int| 0 <= j < i ==> is_name_char(#[trigger] name@[j]),
        decreases n - i,
    {
        let c = name.get_char(i);
        if !(('a' <= c && c <= 'z') || ('A' <= c && c <= 'Z') || ('0' <= c && c <= '9') || c == '.'
            || c == '_') {
            return false;
        }
        i += 1;
    }
    true
}

/// An error indicating a name included illegal characters.
#[derive(Clone, Copy, PartialEq, Eq, Debug, Structural)]
pub struct IllegalName;

impl IllegalName {
    /// The error's message.
    pub fn message(&self) -> (r: &'static str)
        ensures
            r@ == "Glyph names can only include a-z, A-Z, 0-9, '.', '_'."@,
    {
        "Glyph names can only include a-z, A-Z, 0-9, '.', '_'."
    }
}

/// The standard name for a glyph: the glyph list's name when the glyph is a
/// single listed character, else the name itself when it is valid.
pub fn validate_and_standardize_name(name: &str) -> (r: Result<String, IllegalName>)
    ensures
        name_for_glyph(name@) matches Some(canonical) ==> (r matches Ok(s) && s@ == canonical),
        name_for_glyph(name@) is None && valid_glyph_name(name@) ==> (r matches Ok(s) && s@ == name@),
        name_for_glyph(name@) is None && !valid_glyph_name(name@) ==> r is Err,
{
    match glyph_name_for_glyph(name) {
        Some(canonical_name) => Ok(canonical_name.to_owned()),
        None => if is_valid_glyph_name(name) {
            Ok(name.to_owned())
        } else {
            Err(IllegalName)
        },
    }
}

/// Whether two strings hold the same characters.
pub(crate) fn same_chars(a: &str, b: &str) -> (r: bool)
    ensures
        r == (a@ == b@),
{
    let n = a.unicode_len();
    if n != b.unicode_len() {
        return false;
    }
    let mut i: usize = 0;
    while i < n
        invariant
            n == a@.len() == b@.len(),
            0 <= i <= n,
            forall|j: int| 0 <= j < i ==> a@[j] == b@[j],
        decreases n - i,
    {
        if a.get_char(i) != b.get_char(i) {
            return false;
        }
        i += 1;
    }
    assert(a@ =~= b@);
    true
}

/// Given a glyph name, a guess at its code points: the character the glyph
/// list gives that name, or else the name's only character.
pub fn codepoints_for_glyph(name: &str) -> (r: Option<Vec<char>>)
    ensures
        r matches Some(v) ==> codepoints_spec(name@) == Some(v@),
        r is None ==> codepoints_spec(name@) is None,
{
    let mut i: usize = 0;
    while i < GLYPH_NAME_COUNT
        invariant
            0 <= i <= GLYPH_NAME_COUNT,
            name_index_from(name@, 0) == name_index_from(name@, i as int),
        decreases GLYPH_NAME_COUNT - i,
    {
        let (c, n) = aglfn_entry(i);
        if same_chars(n, name) {
            let v = vec![c];
            assert(v@ =~= seq![c]);
            return Some(v);
        }
        i += 1;
    }
    if name.unicode_len() == 1 {
        let c = name.get_char(0);
        let v = vec![c];
        assert(v@ =~= seq![c]);
        Some(v)
    } else {
        None
    }
}

/// The glyph list's names for the printable ASCII characters other than
/// letters: the PostScript names of the space, the digits and the ASCII
/// punctuation.
pub open spec fn ascii_symbol_name(c: char) -> Seq<char> {
    if c == ' ' {
        "space"@
    } else if c == '!' {
        "exclam"@
    } else if c == '"' {
        "quotedbl"@
    } else if c == '#' {
        "numbersign"@
    } else if c == '$' {
        "dollar"@
    } else if c == '%' {
        "percent"@
    } else if c == '&' {
        "ampersand"@
    } else if c == '\'' {
        "quotesingle"@
    } else if c == '(' {
        "parenleft"@
    } else if c == ')' {
        "parenright"@
    } else if c == '*' {
        "asterisk"@
    } else if c == '+' {
        "plus"@
    } else if c == ',' {
        "comma"@
    } else if c == '-' {
        "hyphen"@
    } else if c == '.' {
        "period"@
    } else if c == '/' {
        "slash"@
    } else if c == '0' {
        "zero"@
    } else if c == '1' {
        "one"@
    } else if c == '2' {
        "two"@
    } else if c == '3' {
        "three"@
    } else if c == '4' {
        "four"@
    } else if c == '5' {
        "five"@
    } else if c == '6' {
        "six"@
    } else if c == '7' {
        "seven"@
    } else if c == '8' {
        "eight"@
    } else if c == '9' {
        "nine"@
    } else if c == ':' {
        "colon"@
    } else if c == ';' {
        "semicolon"@
    } else if c == '<' {
        "less"@
    } else if c == '=' {
        "equal"@
    } else if c == '>' {
        "greater"@
    } else if c == '?' {
        "question"@
    } else if c == '@' {
        "at"@
    } else if c == '[' {
        "bracketleft"@
    } else if c == '\\' {
        "backslash"@
    } else if c == ']' {
        "bracketright"@
    } else if c == '^' {
        "asciicircum"@
    } else if c == '_' {
        "underscore"@
    } else if c == '`' {
        "grave"@
    } else if c == '{' {
        "braceleft"@
    } else if c == '|' {
        "bar"@
    } else if c == '}' {
        "braceright"@
    } else if c == '~' {
        "asciitilde"@
    } else {
        Seq::empty()
    }
}

/// The glyph list's name for a printable ASCII character: a letter is named
/// by itself, any other character by its PostScript name.
pub open spec fn ascii_glyph_name(c: char) -> Seq<char> {
    if ('A' <= c && c <= 'Z') || ('a' <= c && c <= 'z') {
        seq![c]
    } else {
        ascii_symbol_name(c)
    }
}

/// The first entries of the glyph list are the printable ASCII characters,
/// in order.
proof fn lemma_ascii_block(k: int)
    requires
        0 <= k <= 94,
    ensures
        aglfn(k as usize).0 == (k + 32) as char,
{
}

/// The first entry from `i` on whose character is `c` is at `k`, when no
/// entry from `i` up to `k` has it and the entry at `k` does.
proof fn lemma_char_index_at(c: char, i: int, k: int)
    requires
        0 <= i <= k < GLYPH_NAME_COUNT,
        aglfn(k as usize).0 == c,
        forall|j: int| i <= j < k ==> (#[trigger] aglfn(j as usize)).0 != c,
    ensures
        char_index_from(c, i) == Some(k),
    decreases k - i,
{
    if i < k {
        lemma_char_index_at(c, i + 1, k);
    }
}

/// Every printable ASCII character has the glyph list's name for it: a
/// letter its own name, a digit, the space or a punctuation mark its
/// PostScript name (U+002D is `hyphen`, U+002E is `period`, ...).
pub proof fn lemma_ascii_glyph_names(c: char)
    requires
        ' ' <= c <= '~',
    ensures
        name_for_char(c) == Some(ascii_glyph_name(c)),
{
    let k = c as int - 32;
    lemma_ascii_block(k);
    assert forall|j: int| 0 <= j < k implies (#[trigger] aglfn(j as usize)).0 != c by {
        lemma_ascii_block(j);
    }
    lemma_char_index_at(c, 0, k);
    reveal_strlit("A");
    reveal_strlit("B");
    reveal_strlit("C");
    reveal_strlit("D");
    reveal_strlit("E");
    reveal_strlit("F");
    reveal_strlit("G");
    reveal_strlit("H");
    reveal_strlit("I");
    reveal_strlit("J");
    reveal_strlit("K");
    reveal_strlit("L");
    reveal_strlit("M");
    reveal_strlit("N");
    reveal_strlit("O");
    reveal_strlit("P");
    reveal_strlit("Q");
    reveal_strlit("R");
    reveal_strlit("S");
    reveal_strlit("T");
    reveal_strlit("U");
    reveal_strlit("V");
    reveal_strlit("W");
    reveal_strlit("X");
    reveal_strlit("Y");
    reveal_strlit("Z");
    reveal_strlit("a");
    reveal_strlit("b");
    reveal_strlit("c");
    reveal_strlit("d");
    reveal_strlit("e");
    reveal_strlit("f");
    reveal_strlit("g");
    reveal_strlit("h");
    reveal_strlit("i");
    reveal_strlit("j");
    reveal_strlit("k");
    reveal_strlit("l");
    reveal_strlit("m");
    reveal_strlit("n");
    reveal_strlit("o");
    reveal_strlit("p");
    reveal_strlit("q");
    reveal_strlit("r");
    reveal_strlit("s");
    reveal_strlit("t");
    reveal_strlit("u");
    reveal_strlit("v");
    reveal_strlit("w");
    reveal_strlit("x");
    reveal_strlit("y");
    reveal_strlit("z");
}

/// The glyph list is in strictly increasing character order.
proof fn lemma_table_steps(i: int)
    requires
        0 <= i < GLYPH_NAME_COUNT - 1,
    ensures
        aglfn(i as usize).0 < aglfn((i + 1) as usize).0,
{
}

/// Entries further on in the glyph list have larger characters.
proof fn lemma_table_ordered(i: int, j: int)
    requires
        0 <= i < j < GLYPH_NAME_COUNT,
    ensures
        aglfn(i as usize).0 < aglfn(j as usize).0,
    decreases j - i,
{
    lemma_table_steps(j - 1);
    if i < j - 1 {
        lemma_table_ordered(i, j - 1);
    }
}

/// Every character of the glyph list is named by its own entry: looking up
/// the character of any entry gives that entry's name, since the list is in
/// strictly increasing character order and holds no character twice.
pub proof fn lemma_each_listed_char_named_by_its_entry(k: int)
    requires
        0 <= k < GLYPH_NAME_COUNT,
    ensures
        name_for_char(aglfn(k as usize).0) == Some(aglfn(k as usize).1),
        forall|j: int| 0 <= j < GLYPH_NAME_COUNT && j != k ==> (#[trigger] aglfn(j as usize)).0 != aglfn(k as usize).0,
{
    let c = aglfn(k as usize).0;
    assert forall|j: int| 0 <= j < GLYPH_NAME_COUNT && j != k implies (#[trigger] aglfn(j as usize)).0 != c by {
        if j < k {
            lemma_table_ordered(j, k);
        } else {
            lemma_table_ordered(k, j);
        }
    }
    lemma_char_index_at(c, 0, k);
}

} // verus!
