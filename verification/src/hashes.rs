//! The hashes by which Prometheus tells families apart by their names, and the members of a family by
//! their label values: FNV-1a, with 64 bits.
use crate::metrics::{DRIVER_PRESENT, RECONCILE_RUNS_TOTAL, REPAIRS_TOTAL, REPAIR_FAILURES_TOTAL};
use crate::text::join;
use vstd::prelude::*;
use vstd::utf8::{encode_scalar, encode_utf8, leading_byte_width_1};

verus! {

/// One byte more: it is mixed in, then the whole is multiplied, and what does not fit is cut off.
pub open spec fn fnv_step(h: u64, byte: u8) -> u64 {
    ((h ^ (byte as u64)) * 0x100000001b3) as u64
}

/// The FNV-1a hash of some bytes.
pub open spec fn fnv1a(bytes: Seq<u8>) -> u64
    decreases bytes.len(),
{
    if bytes.len() == 0 {
        0xcbf29ce484222325
    } else {
        fnv_step(fnv1a(bytes.drop_last()), bytes.last())
    }
}

/// The hash of label values by which a family tells its members apart: that of the values in UTF-8,
/// one behind the other.
pub open spec fn label_hash(values: Seq<Seq<char>>) -> u64 {
    fnv1a(encode_utf8(join(values, Seq::empty())))
}

/// The hash of a metric name by which a registry tells families apart: that of the name in UTF-8 and
/// one byte that ends it.
pub open spec fn name_hash(name: Seq<char>) -> u64 {
    fnv1a(encode_utf8(name).push(0xff))
}

/// Whether all characters are ASCII.
spec fn is_ascii(s: Seq<char>) -> bool {
    forall|i: int| 0 <= i < s.len() ==> (#[trigger] s[i]) as u32 <= 0x7f
}

/// The FNV-1a hash of ASCII characters.
spec fn ascii_hash(s: Seq<char>) -> u64
    decreases s.len(),
{
    if s.len() == 0 {
        0xcbf29ce484222325
    } else {
        fnv_step(ascii_hash(s.drop_last()), s.last() as u8)
    }
}

/// ASCII characters, each as one byte.
spec fn ascii_bytes(s: Seq<char>) -> Seq<u8> {
    Seq::new(s.len(), |i: int| s[i] as u8)
}

/// An ASCII character is one byte in UTF-8.
proof fn lemma_one_byte(c: u32)
    by (bit_vector)
    requires
        c <= 0x7f,
    ensures
        c & 0x7f == c,
{
}

proof fn lemma_ascii_char(c: char)
    requires
        c as u32 <= 0x7f,
    ensures
        encode_scalar(c as u32) == seq![c as u8],
{
    lemma_one_byte(c as u32);
    assert(encode_scalar(c as u32) =~= seq![leading_byte_width_1(c as u32)]);
}

proof fn lemma_ascii_bytes(s: Seq<char>)
    requires
        is_ascii(s),
    ensures
        encode_utf8(s) == ascii_bytes(s),
    decreases s.len(),
{
    if s.len() > 0 {
        let t = s.drop_first();
        assert(is_ascii(t)) by {
            assert forall|i: int| 0 <= i < t.len() implies (#[trigger] t[i]) as u32 <= 0x7f by {
                assert(s[i + 1] as u32 <= 0x7f);
            }
        }
        lemma_ascii_bytes(t);
        lemma_ascii_char(s[0]);
        assert(encode_utf8(s) == encode_scalar(s[0] as u32) + encode_utf8(t));
        assert(ascii_bytes(s) =~= seq![s[0] as u8] + ascii_bytes(t));
    } else {
        assert(encode_utf8(s) =~= ascii_bytes(s));
    }
}

proof fn lemma_ascii_bytes_hash(s: Seq<char>)
    ensures
        fnv1a(ascii_bytes(s)) == ascii_hash(s),
    decreases s.len(),
{
    if s.len() > 0 {
        lemma_ascii_bytes_hash(s.drop_last());
        assert(ascii_bytes(s).drop_last() =~= ascii_bytes(s.drop_last()));
    }
}

proof fn lemma_ascii_hash(s: Seq<char>)
    requires
        is_ascii(s),
    ensures
        fnv1a(encode_utf8(s)) == ascii_hash(s),
{
    lemma_ascii_bytes(s);
    lemma_ascii_bytes_hash(s);
}

proof fn lemma_one_byte_more(bytes: Seq<u8>, byte: u8)
    ensures
        fnv1a(bytes.push(byte)) == fnv_step(fnv1a(bytes), byte),
{
    assert(bytes.push(byte).drop_last() =~= bytes);
}

/// The hash of `ml2_driver_present`, byte by byte.
proof fn lemma_driver_present_steps()
    by (bit_vector)
    ensures
        fnv_step(0xcbf29ce484222325, 0x6d) == 0xaf63e04c8601f358u64,
        fnv_step(0xaf63e04c8601f358, 0x6c) == 0x08a95607b550415cu64,
        fnv_step(0x08a95607b550415c, 0x32) == 0x07fe9d19175f2deau64,
        fnv_step(0x07fe9d19175f2dea, 0x5f) == 0xf4d2a6a2b6baaa8fu64,
        fnv_step(0xf4d2a6a2b6baaa8f, 0x64) == 0xbc9c117c7f306d51u64,
        fnv_step(0xbc9c117c7f306d51, 0x72) == 0xad9ed98c1f497279u64,
        fnv_step(0xad9ed98c1f497279, 0x69) == 0x4e5db91929ccd130u64,
        fnv_step(0x4e5db91929ccd130, 0x76) == 0xf612cbc2070799f2u64,
        fnv_step(0xf612cbc2070799f2, 0x65) == 0x2989d1b1f1e9fb95u64,
        fnv_step(0x2989d1b1f1e9fb95, 0x72) == 0x7f2b385e10970985u64,
        fnv_step(0x7f2b385e10970985, 0x5f) == 0xad7aa1d630a5bd6eu64,
        fnv_step(0xad7aa1d630a5bd6e, 0x70) == 0x6d1e1cf4a9a059fau64,
        fnv_step(0x6d1e1cf4a9a059fa, 0x72) == 0x0a84bbbc3b782218u64,
        fnv_step(0x0a84bbbc3b782218, 0x65) == 0x57ad7dd90d229a67u64,
        fnv_step(0x57ad7dd90d229a67, 0x73) == 0x1e66ebd151cbcffcu64,
        fnv_step(0x1e66ebd151cbcffc, 0x65) == 0x74b24dadfd51c0fbu64,
        fnv_step(0x74b24dadfd51c0fb, 0x6e) == 0x9cba93a571ea3d2fu64,
        fnv_step(0x9cba93a571ea3d2f, 0x74) == 0x3b463d20910641a1u64,
        fnv_step(0x3b463d20910641a1, 0xff) == 0xbe9b3c566da112bau64,
{
}

/// The hash of `ml2_driver_repairs_total`, byte by byte, behind `ml2_driver_`.
proof fn lemma_repairs_steps()
    by (bit_vector)
    ensures
        fnv_step(0xad7aa1d630a5bd6e, 0x72) == 0x6d1e1af4a9a05694u64,
        fnv_step(0x6d1e1af4a9a05694, 0x65) == 0x0a7ebebc3b73bb83u64,
        fnv_step(0x0a7ebebc3b73bb83, 0x70) == 0x491a0cd905a85de9u64,
        fnv_step(0x491a0cd905a85de9, 0x61) == 0xdfa15cc49d16ee18u64,
        fnv_step(0xdfa15cc49d16ee18, 0x69) == 0x161f1316edf72a03u64,
        fnv_step(0x161f1316edf72a03, 0x72) == 0x8df7e0f65afd1e03u64,
        fnv_step(0x8df7e0f65afd1e03, 0x73) == 0x3951b29c9c1ab850u64,
        fnv_step(0x3951b29c9c1ab850, 0x5f) == 0x808a8f1d4166c17du64,
        fnv_step(0x808a8f1d4166c17d, 0x74) == 0xd23237b6219a024bu64,
        fnv_step(0xd23237b6219a024b, 0x6f) == 0xc556ce7b18b1a32cu64,
        fnv_step(0xc556ce7b18b1a32c, 0x74) == 0x0424332af5d88e88u64,
        fnv_step(0x0424332af5d88e88, 0x61) == 0xe211daffbefad5ebu64,
        fnv_step(0xe211daffbefad5eb, 0x6c) == 0x1f2ca7918438d465u64,
        fnv_step(0x1f2ca7918438d465, 0xff) == 0x31b55643ac9141aeu64,
{
}

/// The hash of `ml2_driver_repair_failures_total`, byte by byte, behind `ml2_driver_repair`.
proof fn lemma_repair_failures_steps()
    by (bit_vector)
    ensures
        fnv_step(0x8df7e0f65afd1e03, 0x5f) == 0x39519e9c9c1a9654u64,
        fnv_step(0x39519e9c9c1a9654, 0x66) == 0x8046b61d412d36f6u64,
        fnv_step(0x8046b61d412d36f6, 0x61) == 0x255e0ab5bfd3c295u64,
        fnv_step(0x255e0ab5bfd3c295, 0x69) == 0x528f2ed4f4d45234u64,
        fnv_step(0x528f2ed4f4d45234, 0x6c) == 0x1d9eebdc04c7eb88u64,
        fnv_step(0x1d9eebdc04c7eb88, 0x75) == 0x1cf6c3dc1fb5fee7u64,
        fnv_step(0x1cf6c3dc1fb5fee7, 0x72) == 0xed4d6409e23f972fu64,
        fnv_step(0xed4d6409e23f972f, 0x65) == 0x7a1846cb720e12beu64,
        fnv_step(0x7a1846cb720e12be, 0x73) == 0x855318b2cde9f257u64,
        fnv_step(0x855318b2cde9f257, 0x5f) == 0x7624ffd3e4864398u64,
        fnv_step(0x7624ffd3e4864398, 0x74) == 0x4722a10d50256a04u64,
        fnv_step(0x4722a10d50256a04, 0x6f) == 0x0542149f2f93d3d1u64,
        fnv_step(0x0542149f2f93d3d1, 0x74) == 0x831caf7dd830a15fu64,
        fnv_step(0x831caf7dd830a15f, 0x61) == 0xfa5f70d65aa1fc5au64,
        fnv_step(0xfa5f70d65aa1fc5a, 0x6c) == 0x1228f23c013f8fc2u64,
        fnv_step(0x1228f23c013f8fc2, 0xff) == 0x1b22d8f61f0064a7u64,
{
}

/// The hash of `ml2_guardian_reconcile_runs_total`, byte by byte, behind `ml2_`.
proof fn lemma_reconcile_runs_steps()
    by (bit_vector)
    ensures
        fnv_step(0xf4d2a6a2b6baaa8f, 0x67) == 0xbc9c0e7c7f306838u64,
        fnv_step(0xbc9c0e7c7f306838, 0x75) == 0xad94ea8c1f413ad7u64,
        fnv_step(0xad94ea8c1f413ad7, 0x61) == 0x354542191bd6c342u64,
        fnv_step(0x354542191bd6c342, 0x72) == 0x5b7280aa4dedaa90u64,
        fnv_step(0x5b7280aa4dedaa90, 0x64) == 0x513b95626ad97c9cu64,
        fnv_step(0x513b95626ad97c9c, 0x69) == 0xe1bbcb3b8f8f544fu64,
        fnv_step(0xe1bbcb3b8f8f544f, 0x61) == 0x216e8434f08c0a2au64,
        fnv_step(0x216e8434f08c0a2a, 0x6e) == 0x5ad4e9f4bdf5718cu64,
        fnv_step(0x5ad4e9f4bdf5718c, 0x5f) == 0x4d3b5ddec8106989u64,
        fnv_step(0x4d3b5ddec8106989, 0x72) == 0x4c4a7c8df3e41581u64,
        fnv_step(0x4c4a7c8df3e41581, 0x65) == 0x86a789356c91326cu64,
        fnv_step(0x86a789356c91326c, 0x63) == 0x5fe034c77ab80f7du64,
        fnv_step(0x5fe034c77ab80f7d, 0x6f) == 0xa208c0f586c19b96u64,
        fnv_step(0xa208c0f586c19b96, 0x6e) == 0x167bd933fafc0668u64,
        fnv_step(0x167bd933fafc0668, 0x63) == 0x30781e537a3e44b1u64,
        fnv_step(0x30781e537a3e44b1, 0x69) == 0x9a605fd8b7cefb08u64,
        fnv_step(0x9a605fd8b7cefb08, 0x6c) == 0x20be414054b52aecu64,
        fnv_step(0x20be414054b52aec, 0x65) == 0x5873694fefd746cbu64,
        fnv_step(0x5873694fefd746cb, 0x5f) == 0x236286d48acced7cu64,
        fnv_step(0x236286d48acced7c, 0x72) == 0xed582927da36cecau64,
        fnv_step(0xed582927da36ceca, 0x75) == 0x839cadb7cb214e8du64,
        fnv_step(0x839cadb7cb214e8d, 0x6e) == 0xc48a124e29990bb9u64,
        fnv_step(0xc48a124e29990bb9, 0x73) == 0x8fa8e4d0af0f083eu64,
        fnv_step(0x8fa8e4d0af0f083e, 0x5f) == 0x2b052f99768b3cd3u64,
        fnv_step(0x2b052f99768b3cd3, 0x74) == 0xa50c88c46e980fc5u64,
        fnv_step(0xa50c88c46e980fc5, 0x6f) == 0x0c5c0fc7ec629ddeu64,
        fnv_step(0x0c5c0fc7ec629dde, 0x74) == 0x630c7ab6ab91e7deu64,
        fnv_step(0x630c7ab6ab91e7de, 0x61) == 0xe01c436588ecc98du64,
        fnv_step(0xe01c436588ecc98d, 0x6c) == 0xbcd06687aa5b0953u64,
        fnv_step(0xbcd06687aa5b0953, 0xff) == 0x3127e48678b16f44u64,
{
}

proof fn lemma_driver_present_hash()
    ensures
        name_hash("ml2_driver_present"@) == 0xbe9b3c566da112bau64,
{
    reveal_strlit("ml2_driver_present");
    reveal_with_fuel(ascii_hash, 19);
    lemma_driver_present_steps();
    lemma_ascii_hash("ml2_driver_present"@);
    assert(ascii_hash("ml2_driver_present"@) == 0x3b463d20910641a1u64);
    lemma_one_byte_more(encode_utf8("ml2_driver_present"@), 0xff);
}

proof fn lemma_repairs_hash()
    ensures
        name_hash("ml2_driver_repairs_total"@) == 0x31b55643ac9141aeu64,
{
    reveal_strlit("ml2_driver_repairs_total");
    reveal_with_fuel(ascii_hash, 25);
    lemma_driver_present_steps();
    lemma_repairs_steps();
    lemma_ascii_hash("ml2_driver_repairs_total"@);
    assert(ascii_hash("ml2_driver_repairs_total"@) == 0x1f2ca7918438d465u64);
    lemma_one_byte_more(encode_utf8("ml2_driver_repairs_total"@), 0xff);
}

proof fn lemma_repair_failures_hash()
    ensures
        name_hash("ml2_driver_repair_failures_total"@) == 0x1b22d8f61f0064a7u64,
{
    reveal_strlit("ml2_driver_repair_failures_total");
    reveal_with_fuel(ascii_hash, 33);
    lemma_driver_present_steps();
    lemma_repairs_steps();
    lemma_repair_failures_steps();
    lemma_ascii_hash("ml2_driver_repair_failures_total"@);
    assert(ascii_hash("ml2_driver_repair_failures_total"@) == 0x1228f23c013f8fc2u64);
    lemma_one_byte_more(encode_utf8("ml2_driver_repair_failures_total"@), 0xff);
}

proof fn lemma_reconcile_runs_hash()
    ensures
        name_hash("ml2_guardian_reconcile_runs_total"@) == 0x3127e48678b16f44u64,
{
    reveal_strlit("ml2_guardian_reconcile_runs_total");
    reveal_with_fuel(ascii_hash, 34);
    lemma_driver_present_steps();
    lemma_reconcile_runs_steps();
    lemma_ascii_hash("ml2_guardian_reconcile_runs_total"@);
    assert(ascii_hash("ml2_guardian_reconcile_runs_total"@) == 0xbcd06687aa5b0953u64);
    lemma_one_byte_more(encode_utf8("ml2_guardian_reconcile_runs_total"@), 0xff);
}

/// The hashes of the names of the four families. No two of them are the same.
pub proof fn lemma_name_hashes()
    ensures
        name_hash(DRIVER_PRESENT@) == 0xbe9b3c566da112bau64,
        name_hash(REPAIRS_TOTAL@) == 0x31b55643ac9141aeu64,
        name_hash(REPAIR_FAILURES_TOTAL@) == 0x1b22d8f61f0064a7u64,
        name_hash(RECONCILE_RUNS_TOTAL@) == 0x3127e48678b16f44u64,
{
    lemma_driver_present_hash();
    lemma_repairs_hash();
    lemma_repair_failures_hash();
    lemma_reconcile_runs_hash();
}

} // verus!
