//! The exponents that the witness computation is built from, and the
//! identities that tie them to the order of the target group.
//!
//! BN254 is the Barreto-Naehrig curve with parameter `x`. Its base field has
//! `q` elements and its pairing groups have prime order `r`, both
//! polynomials in `x`. The unit group of the degree-twelve extension has
//! order `q^12 - 1 = r * h`, and `27` is the largest power of three that
//! divides `h`.
//!
//! Each exponent is given twice: as the limbs that the exponentiation runs
//! over, and as the number that the identities speak of. A lemma beside each
//! pair shows that the two agree.

use crate::field::field_modulus;
use crate::limbs::limbs_value;
use vstd::prelude::*;

verus! {

/// The extraction exponent `6x + 2 + q - q^2 + q^3`: witnesses are roots of
/// this order.
pub const E: [u64; 12] = [
    0x57f83d3135ae0c55, 0xfaf174e7e839ac91, 0xb136a4fdd951c142, 0xeb9b42c6f8f8e030,
    0x788e401a57040c54, 0xbf0519bc6772f06e, 0xab87216b02105ec9, 0xdd45cf150c7e2d75,
    0xc2421c372dee2ddc, 0x68148fd2e5e487f1, 0x331ec15183177faf, 0x01baaa710b0759ad,
];

/// The residue-test exponent `(q^12 - 1) / (3r)`: an element that this
/// exponent sends to one passes the test for being an `E`-th power.
pub const RESIDUE: [u64; 44] = [
    0x2cdcc3cc43825060, 0xc036fa92a1c1b68c, 0x2bd5387d87a2c393, 0x675b00e7933b9308,
    0x959f809fa67230f3, 0x94ac42a2e2414275, 0xf277a8989c7ae92a, 0x40badd19d6720815,
    0x1e935ccd9694cde1, 0x7fbd5b415ac620dc, 0x633e4f7f48f48d09, 0x3fd5be845c1f3855,
    0x76b3e8f516153364, 0xe2ae91a36c4e441f, 0xef21ccc2b1a9f67e, 0xc35676e872ab85f0,
    0x4f869fe5ad625049, 0x23c0f3d9ec706d0c, 0xe9059a6bae5a67d7, 0xc0186f6acfd56b5c,
    0x71eff5ad39a68e53, 0x0ad84ed5a04e8f82, 0x2c236a455b3667e0, 0xc2e1736e0a137087,
    0xf7221722f541af5c, 0x39236b0dc40441a3, 0xd6459cab9b78429e, 0xcccd6c33a46996d8,
    0x7020ef053b55c9fe, 0x2a63158d909f3bf0, 0x27fc92136360cc18, 0xaa50280675f6c13a,
    0x5327d7af82f1eced, 0x285676e20a77ce8e, 0xc82d4d0f9a39f4e1, 0x5bd2a1cbe0335e7a,
    0x041c4ffa0948413b, 0x6a4145c8f1b6f2fd, 0x48fb1c223b681374, 0xa0a1037be931aa40,
    0xce097b007515294b, 0xd6b9c13fcbcde5ff, 0x60549e4a5ad4603e, 0x0000000fc3cf4325,
];

/// The exponent `(q^12 - 1) / (27r)` that sends a Miller loop output to the
/// 27th root of unity of its closed-form witness.
pub const H: [u64; 44] = [
    0x9334f94f95b92560, 0xdc77e2f3d915860f, 0x9317b0f180d9322c, 0x445f71e0d77865ab,
    0xbb4a9c83844593a9, 0xd7a15cbcc3ce5cb7, 0x70462f2d66b852cb, 0x956a189117d3c802,
    0x58bb0a4fbb65ddfc, 0x47150a23b4c0ae51, 0x0b06ec6379e2488f, 0xeaa5f8b95f91b0ed,
    0xb7db19e257c9777c, 0x6e852ca0615e0791, 0x8c5916c04ca11b63, 0xa3ed29a80cbdb98c,
    0x08d611c42fb59724, 0x3cdc8cdf5328efac, 0x3655f4b6a198446d, 0xf8e64544c1c26143,
    0x9ae1c5f6cd8448b3, 0x5689cfded8ec48d5, 0x04e77d95edb0b635, 0x32190cd35673f00f,
    0x37e757e770958543, 0x065944c8a4007912, 0xdeeb4a4bf4d4792e, 0x88889a3ea07d8289,
    0x28e7370094d0a4aa, 0x92ee909df39fea37, 0xe7ff9e73ee98fa3b, 0x84b392ab6270c022,
    0x7b046d4c63e1fde1, 0x92b446191d9b88ba, 0xf9cc2501bbcd8cfc, 0x26a5a03318e94362,
    0xe4032554abb2b1ea, 0x0bce5d1653befe8d, 0xcf38587594d2acd4, 0x83a01cd4e10584b1,
    0x6c39f138f09092cf, 0xdef831eaa4ddfd1c, 0x43979fcf5f6cee3f, 0x00000001c06c5ccb,
];

/// The exponent that sends a Miller loop output to the `E`-th root of its
/// closed-form witness: `U * E` is `1 + H` modulo `(q^12 - 1) / r`.
pub const U: [u64; 44] = [
    0x827ad124a9695e3d, 0x12e45d4d28c2db8b, 0xa1b281ae79cce34d, 0x4b72a0e7b666a114,
    0x2dd8b301ebfdbb19, 0x7cc6b473a6b84b74, 0x452dac06d7ce1d92, 0x1c24eb7a408fed15,
    0xfa1f03612d40f169, 0x2fc9a07a16e87dfa, 0x15595fd0ba84185f, 0xab9484557f4ac8a0,
    0x72d2f8f3c796df2c, 0x7171f0d4e3a730d5, 0xe91f821f43ee3147, 0xe970f07830f9404f,
    0xb36f75b26518b3de, 0x95fa6339c31dbdee, 0x685c7826648620b7, 0xc1c3bb92f61dd31c,
    0x9c1acc5fcad2416f, 0xda7cc0dda8104ff9, 0x796c5d5ddc30d0e0, 0x2cd73eaf72388f17,
    0x154ed80b5b739e46, 0x9e3f7ca465aa26f2, 0xbf6f0e057efce600, 0x30e3db20881d7092,
    0x9d80e3a67afc04ce, 0x93934ba025e7bb0a, 0xb5196105077facd0, 0x625505b15009e9df,
    0xcbd3373fa25c1dbd, 0xecf0f981b7b1d925, 0x927f77ab8ec84ca5, 0x52b04f8ba05e8c70,
    0xaed23c768c0c21df, 0xfa5574beb720692c, 0x24ed8c4f8d65ef91, 0xb08c53fe3bc90cd7,
    0xbad64be775c62b77, 0x48edb7ddcbef3e77, 0xe3cdb8c07c720557, 0x0000000897a950df,
];

/// The cofactor `(q^12 - 1) / 27` of the 27th roots of unity in the unit
/// group.
pub const COFACTOR_27: [u64; 48] = [
    0x5307e27995b92560, 0x4e49724fd0d5baa9, 0x699f06918df573bd, 0xd8b67dadeb715c81,
    0x7eb4df70066ad837, 0x8bc60a073f435457, 0xb34fb1760d3f4978, 0xbc5d7d832a5a7859,
    0x13b9fe9c01a50908, 0x25f6820b2785c585, 0x60057134065445ab, 0x1fc0c463ca8a2bd1,
    0x3ff6a767828803c5, 0xde07932f609ab2ad, 0x4c0927dc736cfc50, 0x094bd8c57a3a1975,
    0xc93fc636a320419f, 0x4816f54c4aeea6f3, 0x9dcf8b6a6cbf2aad, 0x27650a02e1159634,
    0x12cdc5abb33fb41f, 0xb10670d4c9fa651d, 0x94f26b298348f000, 0xe245ed77e6c4d4f7,
    0x82b650ceb16b5719, 0x5f3b48372170fddb, 0x99c8d94054571dbf, 0x695db21f68b0ca80,
    0xd8275f8bd582764a, 0xbcd6cd3562db09b2, 0xc81781459b8beb36, 0x4d18b942febb300a,
    0xb0c86ca70ae44c2c, 0xff09759a58db3b11, 0x6fbe2f3e60f4945e, 0x0a23fd5ed8b291a6,
    0xa808c1d6d2297805, 0x9f82d987285d4b9d, 0xad8b25ab34ab649b, 0xe5a1c5bf2788a521,
    0x8557f3603dcda1ba, 0xe66ef786062352c3, 0x6f7a532371ba73e1, 0x32387421293acf26,
    0x8974500aff1c98cd, 0x27956de909482a44, 0x9b104126d2a0a598, 0x0000000054c40524,
];

/// The inverse of `E` modulo `(q^12 - 1) / (27r)`, the part of the final
/// exponent that is prime to three.
pub const ROOT_EXPONENT: [u64; 44] = [
    0x35a6ebe65284c8bd, 0xa104d17dc46cc34d, 0x5553bde876681a99, 0x39f4d96458850a66,
    0x40ae40f3dae76c74, 0x1e414180977ed895, 0x8414ef513cecd263, 0xc67c8935e140cd0b,
    0x9732da223fa97976, 0x137577eb43e5c4b5, 0xe93dae42d2faf622, 0x00fca170010404eb,
    0x9366916a68710139, 0xb75d3e535e2f128e, 0xb7bb271e1169c3b9, 0x59bc49d7fe025a1d,
    0x90172ea1a642574c, 0xa2882fbc7679ff3e, 0x8f04a54bde250f02, 0xde2aa67fef144e0f,
    0x3093b48494c11e9f, 0x80558162445f2ca3, 0x65ce6706256df80b, 0x64730b621868cedb,
    0x35b1786d991d8939, 0x84da6981d5a842a9, 0x43c1e4d5abab0148, 0x0ec172260627666b,
    0xf9e407a427b97224, 0x47d909285768122d, 0x151ae7354d1bc3e2, 0x4f86bb03c646e954,
    0xdfc1820e12d42637, 0xa21fe11d4143b63b, 0xab4ee3a49f9218b3, 0xb819cebf3cb97ee4,
    0x1ec5a723dd415a36, 0xcb1c006568246ef5, 0xe80c2a793a1b3c41, 0xa20be0aab7b2fa0f,
    0x09ee8703b383e039, 0xcd0cf03338774a06, 0xd56f3982febe4c57, 0x0000000195f7ddb2,
];

/// The parameter `x` of the curve.
pub open spec fn bn_parameter() -> nat {
    4965661367192848881
}

/// The prime order `r` of the pairing groups.
pub open spec fn group_order() -> nat {
    let x = bn_parameter();
    36 * x * x * x * x + 36 * x * x * x + 18 * x * x + 6 * x + 1
}


/// The order `q^12 - 1` of the unit group of the extension field.
pub open spec fn unit_group_order() -> nat {
    0x8f0ac8adc5ab6df1836f1770c2cc29793fa9c753a7f447128e8041da44bf43f7f5933d90dc1e6c4bcfeaa38d34db41b22a5b9ba9f1046ab2684b00eb6380fdb292b696a8d4dacf90e8e139c69d2ccf14141d6f9a0b8ec71a82a5fa88811cbb900dad55c8dc90efb9439cba604e5ff67475f1f3adda523759e261408ac219b8a10ddbe11231a7aa25767c1cec5eaa7a4a16d1a05dccc2713bf84c279d91ce1c9500aa55b90382ee9c8e530232f0b409dd086eac626c93a85ccb6522fbadd600ba556c2761cb5914d60d8b15012abade6714d68aa10fbb3d91be7b7ff4927a80e4dbd46d78ca4e3b439782980469a6bdf0be72b9bb639b9e7c33466ebc5faffdcd3e420af5f04f734402c7e9c876acc85ff3050d845bf03a7eac45865ca5954b6865c929f152092f07caae3590d00ffb72d2b1bd509149dda742c67f3ebdddc3cd5778ab175e967b77365acbfb6bde30ec3ac19e53a5d1390d0ad44cde3db3f4157d4f4c1a623c5b159f8e334f741bf0e6b068aafdbc1d4e2d2ca86f120nat
}

/// The exponent `h = (q^12 - 1) / r` of the final exponentiation.
pub open spec fn final_exponent() -> nat {
    0x2f4b6dc97020fddadf107d20bc842d43bf6369b1ff6a1c71015f3f7be2e1e30a73bb94fec0daf15466b2383a5d3ec3d15ad524d8f70c54efee1bd8c3b21377e563a09a1b705887e72eceaddea3790364a61f676baaf977870e88d5c6c8fef0781361e443ae77f5b63a2a2264487f2940a8b1ddb3d15062cd0fb2015dfc6668449aed3cc48a82d0d602d268c7daab6a41294c0cc4ebe5664568dfc50e1648a45a4a1e3a5195846a3ed011a337a02088ec80e0ebae8755cfe107acf3aafb40494e406f804216bb10cf430b0f37856b42db8dc5514724ee93dfb10826f0dd4a0364b9580291d2cd65664814fde37ca80bb4ea44eacc5e641bbadf423f9a2cbf813b8d145da90029baee7ddadda71c7f3811c4105262945bba1668c3be69a3c230974d83561841d766f9c9d570bb7fbe04c7e8a6c3c760c0de81def35692da361102b6b9b2b918837fa97896e84abb40a4efb7e54523a486964b64ca86f120nat
}

/// The number that [`E`] holds.
pub open spec fn extraction_exponent() -> nat {
    0x1baaa710b0759ad331ec15183177faf68148fd2e5e487f1c2421c372dee2ddcdd45cf150c7e2d75ab87216b02105ec9bf0519bc6772f06e788e401a57040c54eb9b42c6f8f8e030b136a4fdd951c142faf174e7e839ac9157f83d3135ae0c55nat
}

/// The number that [`RESIDUE`] holds.
pub open spec fn residue_exponent() -> nat {
    0xfc3cf432560549e4a5ad4603ed6b9c13fcbcde5ffce097b007515294ba0a1037be931aa4048fb1c223b6813746a4145c8f1b6f2fd041c4ffa0948413b5bd2a1cbe0335e7ac82d4d0f9a39f4e1285676e20a77ce8e5327d7af82f1ecedaa50280675f6c13a27fc92136360cc182a63158d909f3bf07020ef053b55c9fecccd6c33a46996d8d6459cab9b78429e39236b0dc40441a3f7221722f541af5cc2e1736e0a1370872c236a455b3667e00ad84ed5a04e8f8271eff5ad39a68e53c0186f6acfd56b5ce9059a6bae5a67d723c0f3d9ec706d0c4f869fe5ad625049c35676e872ab85f0ef21ccc2b1a9f67ee2ae91a36c4e441f76b3e8f5161533643fd5be845c1f3855633e4f7f48f48d097fbd5b415ac620dc1e935ccd9694cde140badd19d6720815f277a8989c7ae92a94ac42a2e2414275959f809fa67230f3675b00e7933b93082bd5387d87a2c393c036fa92a1c1b68c2cdcc3cc43825060nat
}

/// The number that [`H`] holds.
pub open spec fn wi_exponent() -> nat {
    0x1c06c5ccb43979fcf5f6cee3fdef831eaa4ddfd1c6c39f138f09092cf83a01cd4e10584b1cf38587594d2acd40bce5d1653befe8de4032554abb2b1ea26a5a03318e94362f9cc2501bbcd8cfc92b446191d9b88ba7b046d4c63e1fde184b392ab6270c022e7ff9e73ee98fa3b92ee909df39fea3728e7370094d0a4aa88889a3ea07d8289deeb4a4bf4d4792e065944c8a400791237e757e77095854332190cd35673f00f04e77d95edb0b6355689cfded8ec48d59ae1c5f6cd8448b3f8e64544c1c261433655f4b6a198446d3cdc8cdf5328efac08d611c42fb59724a3ed29a80cbdb98c8c5916c04ca11b636e852ca0615e0791b7db19e257c9777ceaa5f8b95f91b0ed0b06ec6379e2488f47150a23b4c0ae5158bb0a4fbb65ddfc956a189117d3c80270462f2d66b852cbd7a15cbcc3ce5cb7bb4a9c83844593a9445f71e0d77865ab9317b0f180d9322cdc77e2f3d915860f9334f94f95b92560nat
}

/// The number that [`U`] holds.
pub open spec fn c_exponent() -> nat {
    0x897a950dfe3cdb8c07c72055748edb7ddcbef3e77bad64be775c62b77b08c53fe3bc90cd724ed8c4f8d65ef91fa5574beb720692caed23c768c0c21df52b04f8ba05e8c70927f77ab8ec84ca5ecf0f981b7b1d925cbd3373fa25c1dbd625505b15009e9dfb5196105077facd093934ba025e7bb0a9d80e3a67afc04ce30e3db20881d7092bf6f0e057efce6009e3f7ca465aa26f2154ed80b5b739e462cd73eaf72388f17796c5d5ddc30d0e0da7cc0dda8104ff99c1acc5fcad2416fc1c3bb92f61dd31c685c7826648620b795fa6339c31dbdeeb36f75b26518b3dee970f07830f9404fe91f821f43ee31477171f0d4e3a730d572d2f8f3c796df2cab9484557f4ac8a015595fd0ba84185f2fc9a07a16e87dfafa1f03612d40f1691c24eb7a408fed15452dac06d7ce1d927cc6b473a6b84b742dd8b301ebfdbb194b72a0e7b666a114a1b281ae79cce34d12e45d4d28c2db8b827ad124a9695e3dnat
}

/// The number that [`COFACTOR_27`] holds.
pub open spec fn cofactor_27() -> nat {
    0x54c405249b104126d2a0a59827956de909482a448974500aff1c98cd32387421293acf266f7a532371ba73e1e66ef786062352c38557f3603dcda1bae5a1c5bf2788a521ad8b25ab34ab649b9f82d987285d4b9da808c1d6d22978050a23fd5ed8b291a66fbe2f3e60f4945eff09759a58db3b11b0c86ca70ae44c2c4d18b942febb300ac81781459b8beb36bcd6cd3562db09b2d8275f8bd582764a695db21f68b0ca8099c8d94054571dbf5f3b48372170fddb82b650ceb16b5719e245ed77e6c4d4f794f26b298348f000b10670d4c9fa651d12cdc5abb33fb41f27650a02e11596349dcf8b6a6cbf2aad4816f54c4aeea6f3c93fc636a320419f094bd8c57a3a19754c0927dc736cfc50de07932f609ab2ad3ff6a767828803c51fc0c463ca8a2bd160057134065445ab25f6820b2785c58513b9fe9c01a50908bc5d7d832a5a7859b34fb1760d3f49788bc60a073f4354577eb4df70066ad837d8b67dadeb715c81699f06918df573bd4e49724fd0d5baa95307e27995b92560nat
}

/// The number that [`ROOT_EXPONENT`] holds.
pub open spec fn root_exponent() -> nat {
    0x195f7ddb2d56f3982febe4c57cd0cf03338774a0609ee8703b383e039a20be0aab7b2fa0fe80c2a793a1b3c41cb1c006568246ef51ec5a723dd415a36b819cebf3cb97ee4ab4ee3a49f9218b3a21fe11d4143b63bdfc1820e12d426374f86bb03c646e954151ae7354d1bc3e247d909285768122df9e407a427b972240ec172260627666b43c1e4d5abab014884da6981d5a842a935b1786d991d893964730b621868cedb65ce6706256df80b80558162445f2ca33093b48494c11e9fde2aa67fef144e0f8f04a54bde250f02a2882fbc7679ff3e90172ea1a642574c59bc49d7fe025a1db7bb271e1169c3b9b75d3e535e2f128e9366916a6871013900fca170010404ebe93dae42d2faf622137577eb43e5c4b59732da223fa97976c67c8935e140cd0b8414ef513cecd2631e414180977ed89540ae40f3dae76c7439f4d96458850a665553bde876681a99a104d17dc46cc34d35a6ebe65284c8bdnat
}

/// The limbs of [`E`] denote [`extraction_exponent`].
#[verifier::rlimit(50)]
pub proof fn lemma_e_limbs()
    ensures
        limbs_value(E@) == extraction_exponent(),
{
    reveal_with_fuel(limbs_value, 13);
}

/// The limbs of [`RESIDUE`] denote [`residue_exponent`].
#[verifier::rlimit(50)]
pub proof fn lemma_residue_limbs()
    ensures
        limbs_value(RESIDUE@) == residue_exponent(),
{
    reveal_with_fuel(limbs_value, 45);
}

/// The limbs of [`H`] denote [`wi_exponent`].
#[verifier::rlimit(50)]
pub proof fn lemma_h_limbs()
    ensures
        limbs_value(H@) == wi_exponent(),
{
    reveal_with_fuel(limbs_value, 45);
}

/// The limbs of [`U`] denote [`c_exponent`].
#[verifier::rlimit(50)]
pub proof fn lemma_u_limbs()
    ensures
        limbs_value(U@) == c_exponent(),
{
    reveal_with_fuel(limbs_value, 45);
}

/// The limbs of [`COFACTOR_27`] denote [`cofactor_27`].
#[verifier::rlimit(50)]
pub proof fn lemma_cofactor_27_limbs()
    ensures
        limbs_value(COFACTOR_27@) == cofactor_27(),
{
    reveal_with_fuel(limbs_value, 49);
}

/// The limbs of [`ROOT_EXPONENT`] denote [`root_exponent`].
#[verifier::rlimit(50)]
pub proof fn lemma_root_exponent_limbs()
    ensures
        limbs_value(ROOT_EXPONENT@) == root_exponent(),
{
    reveal_with_fuel(limbs_value, 45);
}

/// The field's characteristic is the curve family's polynomial in `x`.
pub proof fn lemma_field_modulus()
    ensures
        field_modulus() == ({
            let x = bn_parameter();
            36 * x * x * x * x + 36 * x * x * x + 24 * x * x + 6 * x + 1
        }),
{
}

/// The unit group has one element fewer than the field.
pub proof fn lemma_unit_group_order()
    ensures
        unit_group_order() + 1 == field_modulus() * field_modulus() * field_modulus()
            * field_modulus() * field_modulus() * field_modulus() * field_modulus()
            * field_modulus() * field_modulus() * field_modulus() * field_modulus()
            * field_modulus(),
{
}

/// The group order divides the order of the unit group, and the quotient
/// holds three exactly three times.
pub proof fn lemma_final_exponent()
    ensures
        final_exponent() * group_order() == unit_group_order(),
        final_exponent() % 27 == 0,
        final_exponent() % 81 != 0,
{
}

/// `E` is `6x + 2 + q - q^2 + q^3`, and is three modulo twenty-seven.
pub proof fn lemma_extraction_exponent()
    ensures
        extraction_exponent() + field_modulus() * field_modulus() == 6 * bn_parameter() + 2
            + field_modulus() + field_modulus() * field_modulus() * field_modulus(),
        extraction_exponent() % 27 == 3,
{
}

/// `RESIDUE` is a third of the final exponent, and is eighteen modulo
/// twenty-seven.
pub proof fn lemma_residue_exponent()
    ensures
        3 * residue_exponent() == final_exponent(),
        residue_exponent() % 27 == 18,
{
}

/// `H` is a twenty-seventh of the final exponent.
pub proof fn lemma_wi_exponent()
    ensures
        27 * wi_exponent() == final_exponent(),
{
}

/// `U * E` is `1 + H` modulo the final exponent.
pub proof fn lemma_c_exponent()
    ensures
        c_exponent() * extraction_exponent() >= 1 + wi_exponent(),
        (c_exponent() * extraction_exponent() - 1 - wi_exponent()) % (final_exponent() as int)
            == 0,
{
}

/// `COFACTOR_27` is a twenty-seventh of the order of the unit group.
pub proof fn lemma_cofactor_27()
    ensures
        27 * cofactor_27() == unit_group_order(),
{
}

/// `ROOT_EXPONENT * E` is one modulo `H`.
pub proof fn lemma_root_exponent()
    ensures
        (root_exponent() * extraction_exponent()) % wi_exponent() == 1,
{
}

} // verus!
