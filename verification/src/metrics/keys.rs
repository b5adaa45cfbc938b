//! The keys of the metric families: no two are the same.
//!
//! The last byte of an FNV-1a hash depends on the last bytes of the hashes before it alone,
//! and the last bytes are enough to tell the families apart. So the hashes are followed
//! through each name by their last bytes.

use vstd::prelude::*;

use crate::metrics::families::{counter_families, families, gauge_families, names_are_told_apart};
use crate::metrics::store;

verus! {

/// The exclusive or of two bytes, bit by bit.
spec fn xor_low(a: int, b: int) -> int {
    (a + b) % 2 + (a / 2 + b / 2) % 2 * 2 + (a / 4 + b / 4) % 2 * 4 + (a / 8 + b / 8) % 2 * 8 + (a
        / 16 + b / 16) % 2 * 16 + (a / 32 + b / 32) % 2 * 32 + (a / 64 + b / 64) % 2 * 64 + (a
        / 128 + b / 128) % 2 * 128
}

/// The last byte of a hash after one more byte.
spec fn low_step(low: int, byte: int) -> int {
    (xor_low(low, byte) * 0xb3) % 256
}

/// The last byte of the hash of the first `n` characters.
#[verifier::opaque]
spec fn low_fold(s: Seq<char>, n: nat) -> int
    decreases n,
{
    if n == 0 {
        0x25
    } else {
        low_step(low_fold(s, (n - 1) as nat), s[n - 1] as int)
    }
}

proof fn lemma_xor_low(h: u64, b: u8)
    ensures
        (h ^ (b as u64)) % 256 == xor_low((h % 256) as int, b as int),
{
    let a = h % 256;
    let c = b as u64;
    assert((h ^ c) % 256 == (a + c) % 2 + (a / 2 + c / 2) % 2 * 2 + (a / 4 + c / 4) % 2 * 4 + (a / 8
        + c / 8) % 2 * 8 + (a / 16 + c / 16) % 2 * 16 + (a / 32 + c / 32) % 2 * 32 + (a / 64 + c
        / 64) % 2 * 64 + (a / 128 + c / 128) % 2 * 128) by (bit_vector)
        requires
            a == h % 256,
            c < 256,
    ;
}

/// The last byte of a product depends on the last bytes of its factors alone.
proof fn lemma_low_product(x: int)
    requires
        0 <= x,
    ensures
        (x * 0x100_0000_01b3) % 0x1_0000_0000_0000_0000 % 256 == ((x % 256) * 0xb3) % 256,
{
    let y = x * 0x100_0000_01b3;
    let q = x / 256;
    let r = x % 256;
    let k = q * 0x100_0000_01b3 + r * 0x1_0000_0001;
    vstd::arithmetic::div_mod::lemma_mod_mod(y, 256, 0x100_0000_0000_0000);
    assert(256 * 0x100_0000_0000_0000 == 0x1_0000_0000_0000_0000);
    assert(y == 256 * k + r * 0xb3);
    vstd::arithmetic::div_mod::lemma_mod_multiples_vanish(k, r * 0xb3, 256);
}

proof fn lemma_low_step(h: u64, b: u8)
    ensures
        store::fnv_step(h, b) % 256 == low_step((h % 256) as int, b as int),
{
    lemma_xor_low(h, b);
    lemma_low_product((h ^ (b as u64)) as int);
    let low = xor_low((h % 256) as int, b as int);
    assert(low_step((h % 256) as int, b as int) == (low * 0xb3) % 256);
}

/// The hash of a name and a separator ends in the byte that the name leads to.
proof fn lemma_low_of_name(name: Seq<char>)
    requires
        vstd::utf8::is_ascii_chars(name),
    ensures
        store::name_key(name) % 256 == low_step(low_fold(name, name.len()), 0xff),
{
    let bytes = vstd::utf8::encode_utf8(name);
    vstd::utf8::is_ascii_chars_encode_utf8(name);
    lemma_low_of_prefix(name, bytes, name.len());
    assert(bytes.take(name.len() as int) =~= bytes);
    assert(bytes.push(0xff).drop_last() =~= bytes);
    lemma_low_step(store::fnv(bytes), 0xff);
}

proof fn lemma_low_of_prefix(name: Seq<char>, bytes: Seq<u8>, n: nat)
    requires
        n <= name.len(),
        bytes.len() == name.len(),
        vstd::utf8::is_ascii_chars(name),
        forall|i: int| 0 <= i < name.len() ==> name[i] as u8 == #[trigger] bytes[i],
    ensures
        store::fnv(bytes.take(n as int)) % 256 == low_fold(name, n),
    decreases n,
{
    reveal(low_fold);
    if n > 0 {
        let prefix = bytes.take(n as int);
        lemma_low_of_prefix(name, bytes, (n - 1) as nat);
        assert(prefix.drop_last() =~= bytes.take(n - 1));
        assert(prefix.last() == bytes[n - 1]);
        assert('\0' <= name[n - 1] <= '\u{7f}');
        lemma_low_step(store::fnv(prefix.drop_last()), prefix.last());
    }
}

// ── Names, step by step ──────────────────────────────────────────────────────

proof fn lemma_start(s: Seq<char>)
    ensures
        low_fold(s, 0) == 0x25,
{
    reveal(low_fold);
}

proof fn lemma_one(s: Seq<char>, n: nat, c: char, a: int, b: int)
    requires
        low_fold(s, n) == a,
        s[n as int] == c,
        low_step(a, c as int) == b,
    ensures
        low_fold(s, n + 1) == b,
{
    reveal_with_fuel(low_fold, 2);
}

proof fn lemma_four(
    s: Seq<char>,
    n: nat,
    c0: char,
    c1: char,
    c2: char,
    c3: char,
    a: int,
    a1: int,
    a2: int,
    a3: int,
    b: int,
)
    requires
        low_fold(s, n) == a,
        s[n as int] == c0,
        s[(n + 1) as int] == c1,
        s[(n + 2) as int] == c2,
        s[(n + 3) as int] == c3,
        low_step(a, c0 as int) == a1,
        low_step(a1, c1 as int) == a2,
        low_step(a2, c2 as int) == a3,
        low_step(a3, c3 as int) == b,
    ensures
        low_fold(s, n + 4) == b,
{
    lemma_one(s, n, c0, a, a1);
    lemma_one(s, n + 1, c1, a1, a2);
    lemma_one(s, n + 2, c2, a2, a3);
    lemma_one(s, n + 3, c3, a3, b);
}

proof fn lemma_key_of_connections_total()
    ensures
        store::name_key("oxiduct_connections_total"@) % 256 == 0xaf,
{
    let s = "oxiduct_connections_total"@;
    reveal_strlit("oxiduct_connections_total");
    lemma_start(s);
    lemma_four(s, 0, 'o', 'x', 'i', 'd', 0x25, 0xbe, 0x72, 0xe1, 0xff);
    lemma_four(s, 4, 'u', 'c', 't', '_', 0xff, 0x7e, 0x47, 0xa9, 0x02);
    lemma_four(s, 8, 'c', 'o', 'n', 'n', 0x02, 0xd3, 0x74, 0x2e, 0xc0);
    lemma_four(s, 12, 'e', 'c', 't', 'i', 0xc0, 0x5f, 0xf4, 0x80, 0xeb);
    lemma_four(s, 16, 'o', 'n', 's', '_', 0xeb, 0x4c, 0xc6, 0x8f, 0x70);
    lemma_four(s, 20, 't', 'o', 't', 'a', 0x70, 0xcc, 0xf9, 0x97, 0x02);
    lemma_one(s, 24, 'l', 0x02, 0xea);
    assert(low_step(0xea, 0xff) == 0xaf);
    crate::metrics::families::lemma_families_are_acceptable();
    lemma_ascii(s);
    lemma_low_of_name(s);
}

proof fn lemma_key_of_connections_rejected_total()
    ensures
        store::name_key("oxiduct_connections_rejected_total"@) % 256 == 0x40,
{
    let s = "oxiduct_connections_rejected_total"@;
    reveal_strlit("oxiduct_connections_rejected_total");
    lemma_start(s);
    lemma_four(s, 0, 'o', 'x', 'i', 'd', 0x25, 0xbe, 0x72, 0xe1, 0xff);
    lemma_four(s, 4, 'u', 'c', 't', '_', 0xff, 0x7e, 0x47, 0xa9, 0x02);
    lemma_four(s, 8, 'c', 'o', 'n', 'n', 0x02, 0xd3, 0x74, 0x2e, 0xc0);
    lemma_four(s, 12, 'e', 'c', 't', 'i', 0xc0, 0x5f, 0xf4, 0x80, 0xeb);
    lemma_four(s, 16, 'o', 'n', 's', '_', 0xeb, 0x4c, 0xc6, 0x8f, 0x70);
    lemma_four(s, 20, 'r', 'e', 'j', 'e', 0x70, 0x66, 0x19, 0x69, 0x64);
    lemma_four(s, 24, 'c', 't', 'e', 'd', 0x64, 0xe5, 0x63, 0x32, 0x22);
    lemma_four(s, 28, '_', 't', 'o', 't', 0x22, 0x67, 0x49, 0x92, 0xd2);
    lemma_one(s, 32, 'a', 0xd2, 0x29);
    lemma_one(s, 33, 'l', 0x29, 0x3f);
    assert(low_step(0x3f, 0xff) == 0x40);
    crate::metrics::families::lemma_families_are_acceptable();
    lemma_ascii(s);
    lemma_low_of_name(s);
}

proof fn lemma_key_of_connect_failures_total()
    ensures
        store::name_key("oxiduct_connect_failures_total"@) % 256 == 0x94,
{
    let s = "oxiduct_connect_failures_total"@;
    reveal_strlit("oxiduct_connect_failures_total");
    lemma_start(s);
    lemma_four(s, 0, 'o', 'x', 'i', 'd', 0x25, 0xbe, 0x72, 0xe1, 0xff);
    lemma_four(s, 4, 'u', 'c', 't', '_', 0xff, 0x7e, 0x47, 0xa9, 0x02);
    lemma_four(s, 8, 'c', 'o', 'n', 'n', 0x02, 0xd3, 0x74, 0x2e, 0xc0);
    lemma_four(s, 12, 'e', 'c', 't', '_', 0xc0, 0x5f, 0xf4, 0x80, 0xed);
    lemma_four(s, 16, 'f', 'a', 'i', 'l', 0xed, 0x31, 0xf0, 0xfb, 0x95);
    lemma_four(s, 20, 'u', 'r', 'e', 's', 0x95, 0xa0, 0xd6, 0x29, 0xee);
    lemma_four(s, 24, '_', 't', 'o', 't', 0xee, 0xc3, 0xf5, 0xae, 0x6e);
    lemma_one(s, 28, 'a', 0x6e, 0x7d);
    lemma_one(s, 29, 'l', 0x7d, 0xe3);
    assert(low_step(0xe3, 0xff) == 0x94);
    crate::metrics::families::lemma_families_are_acceptable();
    lemma_ascii(s);
    lemma_low_of_name(s);
}

proof fn lemma_key_of_connect_timeouts_total()
    ensures
        store::name_key("oxiduct_connect_timeouts_total"@) % 256 == 0x59,
{
    let s = "oxiduct_connect_timeouts_total"@;
    reveal_strlit("oxiduct_connect_timeouts_total");
    lemma_start(s);
    lemma_four(s, 0, 'o', 'x', 'i', 'd', 0x25, 0xbe, 0x72, 0xe1, 0xff);
    lemma_four(s, 4, 'u', 'c', 't', '_', 0xff, 0x7e, 0x47, 0xa9, 0x02);
    lemma_four(s, 8, 'c', 'o', 'n', 'n', 0x02, 0xd3, 0x74, 0x2e, 0xc0);
    lemma_four(s, 12, 'e', 'c', 't', '_', 0xc0, 0x5f, 0xf4, 0x80, 0xed);
    lemma_four(s, 16, 't', 'i', 'm', 'e', 0xed, 0xfb, 0x16, 0x01, 0xec);
    lemma_four(s, 20, 'o', 'u', 't', 's', 0xec, 0x99, 0x04, 0x50, 0x79);
    lemma_four(s, 24, '_', 't', 'o', 't', 0x79, 0x92, 0xd2, 0x27, 0x09);
    lemma_one(s, 28, 'a', 0x09, 0xb8);
    lemma_one(s, 29, 'l', 0xb8, 0x3c);
    assert(low_step(0x3c, 0xff) == 0x59);
    crate::metrics::families::lemma_families_are_acceptable();
    lemma_ascii(s);
    lemma_low_of_name(s);
}

proof fn lemma_key_of_bytes_total()
    ensures
        store::name_key("oxiduct_bytes_total"@) % 256 == 0x71,
{
    let s = "oxiduct_bytes_total"@;
    reveal_strlit("oxiduct_bytes_total");
    lemma_start(s);
    lemma_four(s, 0, 'o', 'x', 'i', 'd', 0x25, 0xbe, 0x72, 0xe1, 0xff);
    lemma_four(s, 4, 'u', 'c', 't', '_', 0xff, 0x7e, 0x47, 0xa9, 0x02);
    lemma_four(s, 8, 'b', 'y', 't', 'e', 0x02, 0x20, 0x3b, 0x3d, 0x88);
    lemma_four(s, 12, 's', '_', 't', 'o', 0x88, 0x81, 0x3a, 0x8a, 0x1f);
    lemma_one(s, 16, 't', 0x1f, 0xd1);
    lemma_one(s, 17, 'a', 0xd1, 0x10);
    lemma_one(s, 18, 'l', 0x10, 0xb4);
    assert(low_step(0xb4, 0xff) == 0x71);
    crate::metrics::families::lemma_families_are_acceptable();
    lemma_ascii(s);
    lemma_low_of_name(s);
}

proof fn lemma_key_of_connections_closed_total()
    ensures
        store::name_key("oxiduct_connections_closed_total"@) % 256 == 0xee,
{
    let s = "oxiduct_connections_closed_total"@;
    reveal_strlit("oxiduct_connections_closed_total");
    lemma_start(s);
    lemma_four(s, 0, 'o', 'x', 'i', 'd', 0x25, 0xbe, 0x72, 0xe1, 0xff);
    lemma_four(s, 4, 'u', 'c', 't', '_', 0xff, 0x7e, 0x47, 0xa9, 0x02);
    lemma_four(s, 8, 'c', 'o', 'n', 'n', 0x02, 0xd3, 0x74, 0x2e, 0xc0);
    lemma_four(s, 12, 'e', 'c', 't', 'i', 0xc0, 0x5f, 0xf4, 0x80, 0xeb);
    lemma_four(s, 16, 'o', 'n', 's', '_', 0xeb, 0x4c, 0xc6, 0x8f, 0x70);
    lemma_four(s, 20, 'c', 'l', 'o', 's', 0x70, 0x49, 0xdf, 0x10, 0x39);
    lemma_four(s, 24, 'e', 'd', '_', 't', 0x39, 0x54, 0x90, 0xbd, 0x8b);
    lemma_four(s, 28, 'o', 't', 'a', 'l', 0x8b, 0x6c, 0xc8, 0x2b, 0xa5);
    assert(low_step(0xa5, 0xff) == 0xee);
    crate::metrics::families::lemma_families_are_acceptable();
    lemma_ascii(s);
    lemma_low_of_name(s);
}

proof fn lemma_key_of_active_connections()
    ensures
        store::name_key("oxiduct_active_connections"@) % 256 == 0x2f,
{
    let s = "oxiduct_active_connections"@;
    reveal_strlit("oxiduct_active_connections");
    lemma_start(s);
    lemma_four(s, 0, 'o', 'x', 'i', 'd', 0x25, 0xbe, 0x72, 0xe1, 0xff);
    lemma_four(s, 4, 'u', 'c', 't', '_', 0xff, 0x7e, 0x47, 0xa9, 0x02);
    lemma_four(s, 8, 'a', 'c', 't', 'i', 0x02, 0x39, 0xee, 0xae, 0x25);
    lemma_four(s, 12, 'v', 'e', '_', 'c', 0x25, 0x09, 0x84, 0x21, 0x26);
    lemma_four(s, 16, 'o', 'n', 'n', 'e', 0x26, 0x0b, 0x9f, 0x83, 0xd2);
    lemma_four(s, 20, 'c', 't', 'i', 'o', 0xd2, 0xc3, 0xf5, 0x14, 0x01);
    lemma_one(s, 24, 'n', 0x01, 0x9d);
    lemma_one(s, 25, 's', 0x9d, 0x6a);
    assert(low_step(0x6a, 0xff) == 0x2f);
    crate::metrics::families::lemma_families_are_acceptable();
    lemma_ascii(s);
    lemma_low_of_name(s);
}

proof fn lemma_key_of_max_connections()
    ensures
        store::name_key("oxiduct_max_connections"@) % 256 == 0x0f,
{
    let s = "oxiduct_max_connections"@;
    reveal_strlit("oxiduct_max_connections");
    lemma_start(s);
    lemma_four(s, 0, 'o', 'x', 'i', 'd', 0x25, 0xbe, 0x72, 0xe1, 0xff);
    lemma_four(s, 4, 'u', 'c', 't', '_', 0xff, 0x7e, 0x47, 0xa9, 0x02);
    lemma_four(s, 8, 'm', 'a', 'x', '_', 0x02, 0x9d, 0x34, 0x24, 0x01);
    lemma_four(s, 12, 'c', 'o', 'n', 'n', 0x01, 0x86, 0xeb, 0xff, 0x63);
    lemma_four(s, 16, 'e', 'c', 't', 'i', 0x63, 0x32, 0xa3, 0x55, 0xf4);
    lemma_one(s, 20, 'o', 0xf4, 0x61);
    lemma_one(s, 21, 'n', 0x61, 0x7d);
    lemma_one(s, 22, 's', 0x7d, 0xca);
    assert(low_step(0xca, 0xff) == 0x0f);
    crate::metrics::families::lemma_families_are_acceptable();
    lemma_ascii(s);
    lemma_low_of_name(s);
}

proof fn lemma_key_of_max_per_ip()
    ensures
        store::name_key("oxiduct_max_per_ip"@) % 256 == 0x51,
{
    let s = "oxiduct_max_per_ip"@;
    reveal_strlit("oxiduct_max_per_ip");
    lemma_start(s);
    lemma_four(s, 0, 'o', 'x', 'i', 'd', 0x25, 0xbe, 0x72, 0xe1, 0xff);
    lemma_four(s, 4, 'u', 'c', 't', '_', 0xff, 0x7e, 0x47, 0xa9, 0x02);
    lemma_four(s, 8, 'm', 'a', 'x', '_', 0x02, 0x9d, 0x34, 0x24, 0x01);
    lemma_four(s, 12, 'p', 'e', 'r', '_', 0x01, 0x03, 0x52, 0x60, 0x0d);
    lemma_one(s, 16, 'i', 0x0d, 0xec);
    lemma_one(s, 17, 'p', 0xec, 0x14);
    assert(low_step(0x14, 0xff) == 0x51);
    crate::metrics::families::lemma_families_are_acceptable();
    lemma_ascii(s);
    lemma_low_of_name(s);
}

/// Names are made of ASCII characters.
pub(crate) proof fn lemma_ascii(s: Seq<char>)
    requires
        store::well_named(s, true),
    ensures
        vstd::utf8::is_ascii_chars(s),
{
}

/// The names of the families all have keys of their own.
pub(crate) proof fn lemma_names_are_told_apart()
    ensures
        names_are_told_apart(),
{
    lemma_key_of_connections_total();
    lemma_key_of_connections_rejected_total();
    lemma_key_of_connect_failures_total();
    lemma_key_of_connect_timeouts_total();
    lemma_key_of_bytes_total();
    lemma_key_of_connections_closed_total();
    lemma_key_of_active_connections();
    lemma_key_of_max_connections();
    lemma_key_of_max_per_ip();
    let all = families();
    let lows = seq![0xafint, 0x40int, 0x94int, 0x59int, 0x71int, 0xeeint, 0x2fint, 0x0fint, 0x51int];
    assert(all =~= counter_families() + gauge_families());
    assert forall|i: int| 0 <= i < all.len() implies store::name_key((#[trigger] all[i]).0) % 256
        == lows[i] by {}
    assert forall|i: int| 0 <= i < all.len() implies store::is_free(
        all.take(i),
        store::name_key((#[trigger] all[i]).0),
    ) by {
        assert forall|j: int| 0 <= j < i implies store::name_key((#[trigger] all.take(i)[j]).0)
            != store::name_key(all[i].0) by {
            assert(all.take(i)[j] == all[j]);
            assert(lows[j] != lows[i]);
        }
    }
}

} // verus!
