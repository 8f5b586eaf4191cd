use vstd::prelude::*;

verus! {

/// Multiplication by the polynomial `x` in GF(2^8), reduced modulo the
/// polynomial x^8 + x^4 + x^3 + x + 1.
pub open spec fn xtime(a: u8) -> u8 {
    if a & 0x80u8 == 0 {
        a << 1u8
    } else {
        (a << 1u8) ^ 0x1bu8
    }
}

/// The sum (xor) of those of `v0 .. v7` whose bit is set in the selector `b`.
pub open spec fn select_sum(
    b: u8,
    v0: u8,
    v1: u8,
    v2: u8,
    v3: u8,
    v4: u8,
    v5: u8,
    v6: u8,
    v7: u8,
) -> u8 {
    (if b & 0x01u8 != 0 { v0 } else { 0u8 }) ^ (if b & 0x02u8 != 0 { v1 } else { 0u8 }) ^ (if b
        & 0x04u8 != 0 {
        v2
    } else {
        0u8
    }) ^ (if b & 0x08u8 != 0 { v3 } else { 0u8 }) ^ (if b & 0x10u8 != 0 { v4 } else { 0u8 }) ^ (
    if b & 0x20u8 != 0 {
        v5
    } else {
        0u8
    }) ^ (if b & 0x40u8 != 0 { v6 } else { 0u8 }) ^ (if b & 0x80u8 != 0 { v7 } else { 0u8 })
}

/// The product of `a` and `b` in GF(2^8) with the reduction polynomial
/// x^8 + x^4 + x^3 + x + 1: the sum of `a * x^i` over the bits `i` set in `b`.
pub closed spec fn gf_mul(a: u8, b: u8) -> u8 {
    select_sum(
        b,
        a,
        xtime(a),
        xtime(xtime(a)),
        xtime(xtime(xtime(a))),
        xtime(xtime(xtime(xtime(a)))),
        xtime(xtime(xtime(xtime(xtime(a))))),
        xtime(xtime(xtime(xtime(xtime(xtime(a)))))),
        xtime(xtime(xtime(xtime(xtime(xtime(xtime(a))))))),
    )
}

/// The product spelled out: `gf_mul(a, b)` is the sum of `a * x^i` over the bits `i` set
/// in `b`, each `a * x^i` being `xtime` applied `i` times to `a`.
pub proof fn lemma_gf_mul_unfold(a: u8, b: u8)
    ensures
        gf_mul(a, b) == select_sum(
            b,
            a,
            xtime(a),
            xtime(xtime(a)),
            xtime(xtime(xtime(a))),
            xtime(xtime(xtime(xtime(a)))),
            xtime(xtime(xtime(xtime(xtime(a))))),
            xtime(xtime(xtime(xtime(xtime(xtime(a)))))),
            xtime(xtime(xtime(xtime(xtime(xtime(xtime(a))))))),
        ),
{
}

/// For each nonzero `a`, an element whose product with `a` is 1.
closed spec fn inverse_witness(a: u8) -> u8 {
    if a == 1u8 {
        1u8
    } else if a == 2u8 {
        141u8
    } else if a == 3u8 {
        246u8
    } else if a == 4u8 {
        203u8
    } else if a == 5u8 {
        82u8
    } else if a == 6u8 {
        123u8
    } else if a == 7u8 {
        209u8
    } else if a == 8u8 {
        232u8
    } else if a == 9u8 {
        79u8
    } else if a == 10u8 {
        41u8
    } else if a == 11u8 {
        192u8
    } else if a == 12u8 {
        176u8
    } else if a == 13u8 {
        225u8
    } else if a == 14u8 {
        229u8
    } else if a == 15u8 {
        199u8
    } else if a == 16u8 {
        116u8
    } else if a == 17u8 {
        180u8
    } else if a == 18u8 {
        170u8
    } else if a == 19u8 {
        75u8
    } else if a == 20u8 {
        153u8
    } else if a == 21u8 {
        43u8
    } else if a == 22u8 {
        96u8
    } else if a == 23u8 {
        95u8
    } else if a == 24u8 {
        88u8
    } else if a == 25u8 {
        63u8
    } else if a == 26u8 {
        253u8
    } else if a == 27u8 {
        204u8
    } else if a == 28u8 {
        255u8
    } else if a == 29u8 {
        64u8
    } else if a == 30u8 {
        238u8
    } else if a == 31u8 {
        178u8
    } else if a == 32u8 {
        58u8
    } else if a == 33u8 {
        110u8
    } else if a == 34u8 {
        90u8
    } else if a == 35u8 {
        241u8
    } else if a == 36u8 {
        85u8
    } else if a == 37u8 {
        77u8
    } else if a == 38u8 {
        168u8
    } else if a == 39u8 {
        201u8
    } else if a == 40u8 {
        193u8
    } else if a == 41u8 {
        10u8
    } else if a == 42u8 {
        152u8
    } else if a == 43u8 {
        21u8
    } else if a == 44u8 {
        48u8
    } else if a == 45u8 {
        68u8
    } else if a == 46u8 {
        162u8
    } else if a == 47u8 {
        194u8
    } else if a == 48u8 {
        44u8
    } else if a == 49u8 {
        69u8
    } else if a == 50u8 {
        146u8
    } else if a == 51u8 {
        108u8
    } else if a == 52u8 {
        243u8
    } else if a == 53u8 {
        57u8
    } else if a == 54u8 {
        102u8
    } else if a == 55u8 {
        66u8
    } else if a == 56u8 {
        242u8
    } else if a == 57u8 {
        53u8
    } else if a == 58u8 {
        32u8
    } else if a == 59u8 {
        111u8
    } else if a == 60u8 {
        119u8
    } else if a == 61u8 {
        187u8
    } else if a == 62u8 {
        89u8
    } else if a == 63u8 {
        25u8
    } else if a == 64u8 {
        29u8
    } else if a == 65u8 {
        254u8
    } else if a == 66u8 {
        55u8
    } else if a == 67u8 {
        103u8
    } else if a == 68u8 {
        45u8
    } else if a == 69u8 {
        49u8
    } else if a == 70u8 {
        245u8
    } else if a == 71u8 {
        105u8
    } else if a == 72u8 {
        167u8
    } else if a == 73u8 {
        100u8
    } else if a == 74u8 {
        171u8
    } else if a == 75u8 {
        19u8
    } else if a == 76u8 {
        84u8
    } else if a == 77u8 {
        37u8
    } else if a == 78u8 {
        233u8
    } else if a == 79u8 {
        9u8
    } else if a == 80u8 {
        237u8
    } else if a == 81u8 {
        92u8
    } else if a == 82u8 {
        5u8
    } else if a == 83u8 {
        202u8
    } else if a == 84u8 {
        76u8
    } else if a == 85u8 {
        36u8
    } else if a == 86u8 {
        135u8
    } else if a == 87u8 {
        191u8
    } else if a == 88u8 {
        24u8
    } else if a == 89u8 {
        62u8
    } else if a == 90u8 {
        34u8
    } else if a == 91u8 {
        240u8
    } else if a == 92u8 {
        81u8
    } else if a == 93u8 {
        236u8
    } else if a == 94u8 {
        97u8
    } else if a == 95u8 {
        23u8
    } else if a == 96u8 {
        22u8
    } else if a == 97u8 {
        94u8
    } else if a == 98u8 {
        175u8
    } else if a == 99u8 {
        211u8
    } else if a == 100u8 {
        73u8
    } else if a == 101u8 {
        166u8
    } else if a == 102u8 {
        54u8
    } else if a == 103u8 {
        67u8
    } else if a == 104u8 {
        244u8
    } else if a == 105u8 {
        71u8
    } else if a == 106u8 {
        145u8
    } else if a == 107u8 {
        223u8
    } else if a == 108u8 {
        51u8
    } else if a == 109u8 {
        147u8
    } else if a == 110u8 {
        33u8
    } else if a == 111u8 {
        59u8
    } else if a == 112u8 {
        121u8
    } else if a == 113u8 {
        183u8
    } else if a == 114u8 {
        151u8
    } else if a == 115u8 {
        133u8
    } else if a == 116u8 {
        16u8
    } else if a == 117u8 {
        181u8
    } else if a == 118u8 {
        186u8
    } else if a == 119u8 {
        60u8
    } else if a == 120u8 {
        182u8
    } else if a == 121u8 {
        112u8
    } else if a == 122u8 {
        208u8
    } else if a == 123u8 {
        6u8
    } else if a == 124u8 {
        161u8
    } else if a == 125u8 {
        250u8
    } else if a == 126u8 {
        129u8
    } else if a == 127u8 {
        130u8
    } else if a == 128u8 {
        131u8
    } else if a == 129u8 {
        126u8
    } else if a == 130u8 {
        127u8
    } else if a == 131u8 {
        128u8
    } else if a == 132u8 {
        150u8
    } else if a == 133u8 {
        115u8
    } else if a == 134u8 {
        190u8
    } else if a == 135u8 {
        86u8
    } else if a == 136u8 {
        155u8
    } else if a == 137u8 {
        158u8
    } else if a == 138u8 {
        149u8
    } else if a == 139u8 {
        217u8
    } else if a == 140u8 {
        247u8
    } else if a == 141u8 {
        2u8
    } else if a == 142u8 {
        185u8
    } else if a == 143u8 {
        164u8
    } else if a == 144u8 {
        222u8
    } else if a == 145u8 {
        106u8
    } else if a == 146u8 {
        50u8
    } else if a == 147u8 {
        109u8
    } else if a == 148u8 {
        216u8
    } else if a == 149u8 {
        138u8
    } else if a == 150u8 {
        132u8
    } else if a == 151u8 {
        114u8
    } else if a == 152u8 {
        42u8
    } else if a == 153u8 {
        20u8
    } else if a == 154u8 {
        159u8
    } else if a == 155u8 {
        136u8
    } else if a == 156u8 {
        249u8
    } else if a == 157u8 {
        220u8
    } else if a == 158u8 {
        137u8
    } else if a == 159u8 {
        154u8
    } else if a == 160u8 {
        251u8
    } else if a == 161u8 {
        124u8
    } else if a == 162u8 {
        46u8
    } else if a == 163u8 {
        195u8
    } else if a == 164u8 {
        143u8
    } else if a == 165u8 {
        184u8
    } else if a == 166u8 {
        101u8
    } else if a == 167u8 {
        72u8
    } else if a == 168u8 {
        38u8
    } else if a == 169u8 {
        200u8
    } else if a == 170u8 {
        18u8
    } else if a == 171u8 {
        74u8
    } else if a == 172u8 {
        206u8
    } else if a == 173u8 {
        231u8
    } else if a == 174u8 {
        210u8
    } else if a == 175u8 {
        98u8
    } else if a == 176u8 {
        12u8
    } else if a == 177u8 {
        224u8
    } else if a == 178u8 {
        31u8
    } else if a == 179u8 {
        239u8
    } else if a == 180u8 {
        17u8
    } else if a == 181u8 {
        117u8
    } else if a == 182u8 {
        120u8
    } else if a == 183u8 {
        113u8
    } else if a == 184u8 {
        165u8
    } else if a == 185u8 {
        142u8
    } else if a == 186u8 {
        118u8
    } else if a == 187u8 {
        61u8
    } else if a == 188u8 {
        189u8
    } else if a == 189u8 {
        188u8
    } else if a == 190u8 {
        134u8
    } else if a == 191u8 {
        87u8
    } else if a == 192u8 {
        11u8
    } else if a == 193u8 {
        40u8
    } else if a == 194u8 {
        47u8
    } else if a == 195u8 {
        163u8
    } else if a == 196u8 {
        218u8
    } else if a == 197u8 {
        212u8
    } else if a == 198u8 {
        228u8
    } else if a == 199u8 {
        15u8
    } else if a == 200u8 {
        169u8
    } else if a == 201u8 {
        39u8
    } else if a == 202u8 {
        83u8
    } else if a == 203u8 {
        4u8
    } else if a == 204u8 {
        27u8
    } else if a == 205u8 {
        252u8
    } else if a == 206u8 {
        172u8
    } else if a == 207u8 {
        230u8
    } else if a == 208u8 {
        122u8
    } else if a == 209u8 {
        7u8
    } else if a == 210u8 {
        174u8
    } else if a == 211u8 {
        99u8
    } else if a == 212u8 {
        197u8
    } else if a == 213u8 {
        219u8
    } else if a == 214u8 {
        226u8
    } else if a == 215u8 {
        234u8
    } else if a == 216u8 {
        148u8
    } else if a == 217u8 {
        139u8
    } else if a == 218u8 {
        196u8
    } else if a == 219u8 {
        213u8
    } else if a == 220u8 {
        157u8
    } else if a == 221u8 {
        248u8
    } else if a == 222u8 {
        144u8
    } else if a == 223u8 {
        107u8
    } else if a == 224u8 {
        177u8
    } else if a == 225u8 {
        13u8
    } else if a == 226u8 {
        214u8
    } else if a == 227u8 {
        235u8
    } else if a == 228u8 {
        198u8
    } else if a == 229u8 {
        14u8
    } else if a == 230u8 {
        207u8
    } else if a == 231u8 {
        173u8
    } else if a == 232u8 {
        8u8
    } else if a == 233u8 {
        78u8
    } else if a == 234u8 {
        215u8
    } else if a == 235u8 {
        227u8
    } else if a == 236u8 {
        93u8
    } else if a == 237u8 {
        80u8
    } else if a == 238u8 {
        30u8
    } else if a == 239u8 {
        179u8
    } else if a == 240u8 {
        91u8
    } else if a == 241u8 {
        35u8
    } else if a == 242u8 {
        56u8
    } else if a == 243u8 {
        52u8
    } else if a == 244u8 {
        104u8
    } else if a == 245u8 {
        70u8
    } else if a == 246u8 {
        3u8
    } else if a == 247u8 {
        140u8
    } else if a == 248u8 {
        221u8
    } else if a == 249u8 {
        156u8
    } else if a == 250u8 {
        125u8
    } else if a == 251u8 {
        160u8
    } else if a == 252u8 {
        205u8
    } else if a == 253u8 {
        26u8
    } else if a == 254u8 {
        65u8
    } else if a == 255u8 {
        28u8
    } else {
        0u8
    }
}

// ---- bit-level facts ----

pub proof fn lemma_xor_facts(a: u8, b: u8, c: u8)
    ensures
        a ^ b == b ^ a,
        (a ^ b) ^ c == a ^ (b ^ c),
        a ^ a == 0,
        a ^ 0 == a,
        0 ^ a == a,
        (a ^ b == 0) == (a == b),
{
    assert(a ^ b == b ^ a) by (bit_vector);
    assert((a ^ b) ^ c == a ^ (b ^ c)) by (bit_vector);
    assert(a ^ a == 0) by (bit_vector);
    assert(a ^ 0 == a) by (bit_vector);
    assert(0 ^ a == a) by (bit_vector);
    assert((a ^ b == 0) == (a == b)) by (bit_vector);
}

proof fn bv_select_linear(
    b: u8,
    c: u8,
    v0: u8,
    v1: u8,
    v2: u8,
    v3: u8,
    v4: u8,
    v5: u8,
    v6: u8,
    v7: u8,
)
    by (bit_vector)
    ensures
        select_sum(b ^ c, v0, v1, v2, v3, v4, v5, v6, v7) == select_sum(
            b,
            v0,
            v1,
            v2,
            v3,
            v4,
            v5,
            v6,
            v7,
        ) ^ select_sum(c, v0, v1, v2, v3, v4, v5, v6, v7),
{
}

proof fn bv_select_zero_one(v0: u8, v1: u8, v2: u8, v3: u8, v4: u8, v5: u8, v6: u8, v7: u8)
    by (bit_vector)
    ensures
        select_sum(0u8, v0, v1, v2, v3, v4, v5, v6, v7) == 0u8,
        select_sum(1u8, v0, v1, v2, v3, v4, v5, v6, v7) == v0,
{
}

proof fn bv_xtime_select(
    b: u8,
    v0: u8,
    v1: u8,
    v2: u8,
    v3: u8,
    v4: u8,
    v5: u8,
    v6: u8,
    v7: u8,
    w0: u8,
    w1: u8,
    w2: u8,
    w3: u8,
    w4: u8,
    w5: u8,
    w6: u8,
    w7: u8,
)
    by (bit_vector)
    requires
        w0 == xtime(v0),
        w1 == xtime(v1),
        w2 == xtime(v2),
        w3 == xtime(v3),
        w4 == xtime(v4),
        w5 == xtime(v5),
        w6 == xtime(v6),
        w7 == xtime(v7),
    ensures
        xtime(select_sum(b, v0, v1, v2, v3, v4, v5, v6, v7)) == select_sum(
            b,
            w0,
            w1,
            w2,
            w3,
            w4,
            w5,
            w6,
            w7,
        ),
{
}

#[verifier::rlimit(100)]
proof fn bv_commutative(
    a: u8,
    a1: u8,
    a2: u8,
    a3: u8,
    a4: u8,
    a5: u8,
    a6: u8,
    a7: u8,
    b: u8,
    b1: u8,
    b2: u8,
    b3: u8,
    b4: u8,
    b5: u8,
    b6: u8,
    b7: u8,
)
    by (bit_vector)
    requires
        a1 == xtime(a),
        a2 == xtime(a1),
        a3 == xtime(a2),
        a4 == xtime(a3),
        a5 == xtime(a4),
        a6 == xtime(a5),
        a7 == xtime(a6),
        b1 == xtime(b),
        b2 == xtime(b1),
        b3 == xtime(b2),
        b4 == xtime(b3),
        b5 == xtime(b4),
        b6 == xtime(b5),
        b7 == xtime(b6),
    ensures
        select_sum(b, a, a1, a2, a3, a4, a5, a6, a7) == select_sum(a, b, b1, b2, b3, b4, b5, b6, b7),
{
}

#[verifier::rlimit(100)]
proof fn bv_inverse(a: u8, a1: u8, a2: u8, a3: u8, a4: u8, a5: u8, a6: u8, a7: u8, t: u8)
    by (bit_vector)
    requires
        a != 0,
        t == inverse_witness(a),
        a1 == xtime(a),
        a2 == xtime(a1),
        a3 == xtime(a2),
        a4 == xtime(a3),
        a5 == xtime(a4),
        a6 == xtime(a5),
        a7 == xtime(a6),
    ensures
        select_sum(t, a, a1, a2, a3, a4, a5, a6, a7) == 1u8,
{
}

// ---- field laws ----

/// Multiplication in GF(2^8) is commutative.
pub proof fn lemma_mul_commutative(a: u8, b: u8)
    ensures
        gf_mul(a, b) == gf_mul(b, a),
{
    bv_commutative(
        a,
        xtime(a),
        xtime(xtime(a)),
        xtime(xtime(xtime(a))),
        xtime(xtime(xtime(xtime(a)))),
        xtime(xtime(xtime(xtime(xtime(a))))),
        xtime(xtime(xtime(xtime(xtime(xtime(a)))))),
        xtime(xtime(xtime(xtime(xtime(xtime(xtime(a))))))),
        b,
        xtime(b),
        xtime(xtime(b)),
        xtime(xtime(xtime(b))),
        xtime(xtime(xtime(xtime(b)))),
        xtime(xtime(xtime(xtime(xtime(b))))),
        xtime(xtime(xtime(xtime(xtime(xtime(b)))))),
        xtime(xtime(xtime(xtime(xtime(xtime(xtime(b))))))),
    );
}

/// Multiplication distributes over addition (xor) in its second argument.
pub proof fn lemma_mul_distributive(a: u8, b: u8, c: u8)
    ensures
        gf_mul(a, b ^ c) == gf_mul(a, b) ^ gf_mul(a, c),
{
    bv_select_linear(
        b,
        c,
        a,
        xtime(a),
        xtime(xtime(a)),
        xtime(xtime(xtime(a))),
        xtime(xtime(xtime(xtime(a)))),
        xtime(xtime(xtime(xtime(xtime(a))))),
        xtime(xtime(xtime(xtime(xtime(xtime(a)))))),
        xtime(xtime(xtime(xtime(xtime(xtime(xtime(a))))))),
    );
}

/// Multiplication distributes over addition (xor) in its first argument.
pub proof fn lemma_mul_distributive_left(a: u8, b: u8, c: u8)
    ensures
        gf_mul(a ^ b, c) == gf_mul(a, c) ^ gf_mul(b, c),
{
    lemma_mul_commutative(a ^ b, c);
    lemma_mul_commutative(a, c);
    lemma_mul_commutative(b, c);
    lemma_mul_distributive(c, a, b);
}

/// Zero annihilates and one is neutral.
pub proof fn lemma_mul_zero_one(a: u8)
    ensures
        gf_mul(a, 0) == 0,
        gf_mul(0, a) == 0,
        gf_mul(a, 1) == a,
        gf_mul(1, a) == a,
{
    bv_select_zero_one(
        a,
        xtime(a),
        xtime(xtime(a)),
        xtime(xtime(xtime(a))),
        xtime(xtime(xtime(xtime(a)))),
        xtime(xtime(xtime(xtime(xtime(a))))),
        xtime(xtime(xtime(xtime(xtime(xtime(a)))))),
        xtime(xtime(xtime(xtime(xtime(xtime(xtime(a))))))),
    );
    lemma_mul_commutative(a, 0);
    lemma_mul_commutative(a, 1);
}

/// Multiplying by `x` commutes with multiplication.
proof fn lemma_xtime_mul(a: u8, b: u8)
    ensures
        xtime(gf_mul(a, b)) == gf_mul(xtime(a), b),
{
    bv_xtime_select(
        b,
        a,
        xtime(a),
        xtime(xtime(a)),
        xtime(xtime(xtime(a))),
        xtime(xtime(xtime(xtime(a)))),
        xtime(xtime(xtime(xtime(xtime(a))))),
        xtime(xtime(xtime(xtime(xtime(xtime(a)))))),
        xtime(xtime(xtime(xtime(xtime(xtime(xtime(a))))))),
        xtime(a),
        xtime(xtime(a)),
        xtime(xtime(xtime(a))),
        xtime(xtime(xtime(xtime(a)))),
        xtime(xtime(xtime(xtime(xtime(a))))),
        xtime(xtime(xtime(xtime(xtime(xtime(a)))))),
        xtime(xtime(xtime(xtime(xtime(xtime(xtime(a))))))),
        xtime(xtime(xtime(xtime(xtime(xtime(xtime(xtime(a)))))))),
    );
}

/// Multiplying by `b` on the right commutes with a selected sum.
proof fn lemma_select_mul(c: u8, v0: u8, v1: u8, v2: u8, v3: u8, v4: u8, v5: u8, v6: u8, v7: u8, b: u8)
    ensures
        gf_mul(select_sum(c, v0, v1, v2, v3, v4, v5, v6, v7), b) == select_sum(
            c,
            gf_mul(v0, b),
            gf_mul(v1, b),
            gf_mul(v2, b),
            gf_mul(v3, b),
            gf_mul(v4, b),
            gf_mul(v5, b),
            gf_mul(v6, b),
            gf_mul(v7, b),
        ),
{
    let t0 = if c & 0x01u8 != 0 { v0 } else { 0u8 };
    let t1 = if c & 0x02u8 != 0 { v1 } else { 0u8 };
    let t2 = if c & 0x04u8 != 0 { v2 } else { 0u8 };
    let t3 = if c & 0x08u8 != 0 { v3 } else { 0u8 };
    let t4 = if c & 0x10u8 != 0 { v4 } else { 0u8 };
    let t5 = if c & 0x20u8 != 0 { v5 } else { 0u8 };
    let t6 = if c & 0x40u8 != 0 { v6 } else { 0u8 };
    let t7 = if c & 0x80u8 != 0 { v7 } else { 0u8 };
    lemma_mul_zero_one(b);
    lemma_mul_distributive_left(t0 ^ t1 ^ t2 ^ t3 ^ t4 ^ t5 ^ t6, t7, b);
    lemma_mul_distributive_left(t0 ^ t1 ^ t2 ^ t3 ^ t4 ^ t5, t6, b);
    lemma_mul_distributive_left(t0 ^ t1 ^ t2 ^ t3 ^ t4, t5, b);
    lemma_mul_distributive_left(t0 ^ t1 ^ t2 ^ t3, t4, b);
    lemma_mul_distributive_left(t0 ^ t1 ^ t2, t3, b);
    lemma_mul_distributive_left(t0 ^ t1, t2, b);
    lemma_mul_distributive_left(t0, t1, b);
}

/// Multiplication in GF(2^8) is associative.
pub proof fn lemma_mul_associative(a: u8, b: u8, c: u8)
    ensures
        gf_mul(gf_mul(a, b), c) == gf_mul(a, gf_mul(b, c)),
{
    lemma_mul_swap_last(a, b, c);
    lemma_mul_swap_last(b, c, a);
    lemma_mul_commutative(b, c);
    lemma_mul_commutative(a, gf_mul(b, c));
    lemma_mul_commutative(b, a);
}

/// `(a * b) * c == (a * c) * b`
proof fn lemma_mul_swap_last(a: u8, b: u8, c: u8)
    ensures
        gf_mul(gf_mul(a, b), c) == gf_mul(gf_mul(a, c), b),
{
    let a1 = xtime(a);
    let a2 = xtime(a1);
    let a3 = xtime(a2);
    let a4 = xtime(a3);
    let a5 = xtime(a4);
    let a6 = xtime(a5);
    let a7 = xtime(a6);
    lemma_xtime_mul(a, b);
    lemma_xtime_mul(a1, b);
    lemma_xtime_mul(a2, b);
    lemma_xtime_mul(a3, b);
    lemma_xtime_mul(a4, b);
    lemma_xtime_mul(a5, b);
    lemma_xtime_mul(a6, b);
    lemma_select_mul(c, a, a1, a2, a3, a4, a5, a6, a7, b);
}

/// Every nonzero element has a multiplicative inverse.
pub proof fn lemma_inverse_exists(a: u8)
    requires
        a != 0,
    ensures
        exists|b: u8| gf_mul(a, b) == 1,
{
    let t = inverse_witness(a);
    bv_inverse(
        a,
        xtime(a),
        xtime(xtime(a)),
        xtime(xtime(xtime(a))),
        xtime(xtime(xtime(xtime(a)))),
        xtime(xtime(xtime(xtime(xtime(a))))),
        xtime(xtime(xtime(xtime(xtime(xtime(a)))))),
        xtime(xtime(xtime(xtime(xtime(xtime(xtime(a))))))),
        t,
    );
    assert(gf_mul(a, t) == 1);
}

/// A product is zero only when one of its factors is.
pub proof fn lemma_no_zero_divisors(a: u8, b: u8)
    ensures
        gf_mul(a, b) == 0 <==> (a == 0 || b == 0),
{
    lemma_mul_zero_one(a);
    lemma_mul_zero_one(b);
    if a != 0 && gf_mul(a, b) == 0 {
        lemma_inverse_exists(a);
        let t = choose|t: u8| gf_mul(a, t) == 1;
        lemma_mul_associative(t, a, b);
        lemma_mul_commutative(t, a);
        lemma_mul_zero_one(t);
    }
}


/// The multiplicative inverse of `a` in GF(2^8); zero has none and maps to zero.
pub open spec fn gf_inv(a: u8) -> u8 {
    if a == 0 {
        0
    } else {
        choose|b: u8| gf_mul(a, b) == 1
    }
}

/// `gf_inv(a)` is the one element whose product with a nonzero `a` is 1.
pub proof fn lemma_gf_inv(a: u8, b: u8)
    requires
        a != 0,
    ensures
        gf_mul(a, gf_inv(a)) == 1,
        gf_mul(gf_inv(a), a) == 1,
        gf_mul(a, b) == 1 ==> b == gf_inv(a),
{
    lemma_inverse_exists(a);
    let t = gf_inv(a);
    lemma_mul_commutative(a, t);
    if gf_mul(a, b) == 1 {
        // b = (t * a) * b = t * (a * b) = t
        lemma_mul_associative(t, a, b);
        lemma_mul_zero_one(b);
        lemma_mul_zero_one(t);
    }
}

/// Rearranging a sum of four terms.
pub proof fn lemma_xor_swap(p: u8, q: u8, r: u8, s: u8)
    ensures
        (p ^ q) ^ (r ^ s) == (p ^ r) ^ (q ^ s),
{
    assert((p ^ q) ^ (r ^ s) == (p ^ r) ^ (q ^ s)) by (bit_vector);
}


// ---- executable arithmetic ----

/// `a * b`, computed one bit of `b` at a time (the first `n` bits).
spec fn mul_steps(a: u8, b: u8, n: nat) -> u8
    decreases n,
{
    if n == 0 {
        0
    } else {
        (if b & 1u8 != 0 {
            a
        } else {
            0u8
        }) ^ mul_steps(xtime(a), b >> 1u8, (n - 1) as nat)
    }
}

proof fn bv_mul_steps(b: u8, v0: u8, v1: u8, v2: u8, v3: u8, v4: u8, v5: u8, v6: u8, v7: u8)
    by (bit_vector)
    ensures
        select_sum(b, v0, v1, v2, v3, v4, v5, v6, v7) == (if b & 1u8 != 0 {
            v0
        } else {
            0u8
        }) ^ ((if (b >> 1u8) & 1u8 != 0 {
            v1
        } else {
            0u8
        }) ^ ((if ((b >> 1u8) >> 1u8) & 1u8 != 0 {
            v2
        } else {
            0u8
        }) ^ ((if (((b >> 1u8) >> 1u8) >> 1u8) & 1u8 != 0 {
            v3
        } else {
            0u8
        }) ^ ((if ((((b >> 1u8) >> 1u8) >> 1u8) >> 1u8) & 1u8 != 0 {
            v4
        } else {
            0u8
        }) ^ ((if (((((b >> 1u8) >> 1u8) >> 1u8) >> 1u8) >> 1u8) & 1u8 != 0 {
            v5
        } else {
            0u8
        }) ^ ((if ((((((b >> 1u8) >> 1u8) >> 1u8) >> 1u8) >> 1u8) >> 1u8) & 1u8 != 0 {
            v6
        } else {
            0u8
        }) ^ ((if (((((((b >> 1u8) >> 1u8) >> 1u8) >> 1u8) >> 1u8) >> 1u8) >> 1u8) & 1u8 != 0 {
            v7
        } else {
            0u8
        }) ^ 0u8))))))),
{
}

proof fn lemma_mul_steps(a: u8, b: u8)
    ensures
        mul_steps(a, b, 8) == gf_mul(a, b),
{
    reveal_with_fuel(mul_steps, 9);
    bv_mul_steps(
        b,
        a,
        xtime(a),
        xtime(xtime(a)),
        xtime(xtime(xtime(a))),
        xtime(xtime(xtime(xtime(a)))),
        xtime(xtime(xtime(xtime(xtime(a))))),
        xtime(xtime(xtime(xtime(xtime(xtime(a)))))),
        xtime(xtime(xtime(xtime(xtime(xtime(xtime(a))))))),
    );
}

proof fn bv_mul_round(result: u16, a: u16, b: u16, new_result: u16, new_a: u16, new_b: u16)
    by (bit_vector)
    requires
        b < 256,
        new_result == (if b & 1u16 != 0 {
            result ^ a
        } else {
            result
        }),
        new_a == (if a & 0x80u16 != 0 {
            (a << 1u16) ^ 0x1bu16
        } else {
            a << 1u16
        }),
        new_b == b >> 1u16,
    ensures
        new_b < 256,
        new_b as u8 == (b as u8) >> 1u8,
        new_a as u8 == xtime(a as u8),
        new_result as u8 == (result as u8) ^ (if (b as u8) & 1u8 != 0 {
            a as u8
        } else {
            0u8
        }),
{
}

/// Multiplication in GF(2^8) (reduction polynomial x^8 + x^4 + x^3 + x + 1).
pub fn gf256_mul(a: u8, b: u8) -> (r: u8)
    ensures
        r == gf_mul(a, b),
{
    let ghost a0 = a;
    let ghost b0 = b;
    let mut result: u16 = 0;
    let mut a: u16 = a as u16;
    let mut b: u16 = b as u16;
    let mut round: u8 = 0;
    proof {
        lemma_mul_steps(a0, b0);
        lemma_xor_facts(gf_mul(a0, b0), 0u8, 0u8);
    }
    while round < 8
        invariant
            round <= 8,
            b < 256,
            (result as u8) ^ mul_steps(a as u8, b as u8, (8 - round) as nat) == gf_mul(a0, b0),
        decreases 8 - round,
    {
        let ghost (r0, a_old, b_old) = (result, a, b);
        if b & 1 != 0 {
            result ^= a;
        }
        let carry = a & 0x80;
        a <<= 1;
        if carry != 0 {
            a ^= 0x1B;
        }
        b >>= 1;
        round += 1;
        proof {
            bv_mul_round(r0, a_old, b_old, result, a, b);
            let t = if (b_old as u8) & 1u8 != 0 { a_old as u8 } else { 0u8 };
            lemma_xor_facts(r0 as u8, t, mul_steps(a as u8, b as u8, (8 - round) as nat));
        }
    }
    proof {
        lemma_xor_facts(result as u8, 0u8, 0u8);
    }
    result as u8
}

/// The multiplicative inverse of `a`, found by search; zero for zero.
pub fn gf256_inv(a: u8) -> (r: u8)
    ensures
        r == gf_inv(a),
{
    if a == 0 {
        return 0;
    }
    proof {
        lemma_inverse_exists(a);
        lemma_gf_inv(a, 0);
        lemma_mul_zero_one(a);
    }
    let mut b: u16 = 1;
    while b <= 255
        invariant
            1 <= b <= 256,
            a != 0,
            gf_mul(a, gf_inv(a)) == 1,
            forall|c: u8| 0 <= c < b ==> gf_mul(a, c) != 1,
        decreases 256 - b,
    {
        if gf256_mul(a, b as u8) == 1 {
            proof {
                lemma_gf_inv(a, b as u8);
            }
            return b as u8;
        }
        b += 1;
    }
    proof {
        assert(gf_mul(a, gf_inv(a)) != 1);
    }
    0
}

} // verus!
