use hex::FromHexError;
use vstd::prelude::*;
use vstd::string::StringSliceAdditionalSpecFns;

verus! {

/// The value of one ASCII hexadecimal digit, in either case.
pub open spec fn hex_digit(c: u8) -> Option<u8> {
    if 0x30 <= c <= 0x39 {
        Some((c - 0x30) as u8)
    } else if 0x41 <= c <= 0x46 {
        Some((c - 0x41 + 10) as u8)
    } else if 0x61 <= c <= 0x66 {
        Some((c - 0x61 + 10) as u8)
    } else {
        None
    }
}

/// Whether every byte of the text is a hexadecimal digit.
pub open spec fn all_hex(text: Seq<u8>) -> bool {
    forall|i: int| 0 <= i < text.len() ==> hex_digit(#[trigger] text[i]) is Some
}

/// Whether the text is a hexadecimal dump: an even number of digits.
pub open spec fn is_hex_text(text: Seq<u8>) -> bool {
    text.len() % 2 == 0 && all_hex(text)
}

/// The bytes that a hexadecimal dump stands for: each pair of digits is one
/// byte, high digit first.
pub open spec fn hex_bytes(text: Seq<u8>) -> Seq<u8> {
    Seq::new(
        text.len() / 2,
        |i: int| (hex_digit(text[2 * i]).unwrap() * 16 + hex_digit(text[2 * i + 1]).unwrap()) as u8,
    )
}

/// The sixteen-byte key that a hexadecimal dump stands for, if it is one.
pub open spec fn key_of_text(text: Seq<u8>) -> Option<Seq<u8>> {
    if is_hex_text(text) && text.len() == 32 {
        Some(hex_bytes(text))
    } else {
        None
    }
}

/// The number that a run of hexadecimal digits stands for, most significant
/// digit first.
pub open spec fn hex_value(digits: Seq<u8>) -> nat
    decreases digits.len(),
{
    if digits.len() == 0 {
        0
    } else {
        hex_value(digits.drop_last()) * 16 + match hex_digit(digits.last()) {
            Some(d) => d as nat,
            None => 0,
        }
    }
}

/// The digits of one group of an address: the group without a leading `+`.
pub open spec fn octet_digits(group: Seq<u8>) -> Seq<u8> {
    if group.len() > 0 && group[0] == 0x2B {
        group.subrange(1, group.len() as int)
    } else {
        group
    }
}

/// The octet that one group of an address stands for: an optional `+`, then
/// one or more hexadecimal digits whose value fits in a byte.
pub open spec fn parse_octet(group: Seq<u8>) -> Option<u8> {
    let digits = octet_digits(group);
    if digits.len() > 0 && all_hex(digits) && hex_value(digits) <= 255 {
        Some(hex_value(digits) as u8)
    } else {
        None
    }
}

/// Where the group that starts at `from` ends: at the next colon, or at the
/// end of the text.
pub open spec fn group_end(text: Seq<u8>, from: int) -> int
    decreases text.len() - from,
{
    if from >= text.len() {
        text.len() as int
    } else if text[from] == 0x3A {
        from
    } else {
        group_end(text, from + 1)
    }
}

/// A group ends within the text, at a colon unless the text ends there, and
/// holds no colon itself.
pub proof fn lemma_group_end_bounds(text: Seq<u8>, from: int)
    requires
        0 <= from <= text.len(),
    ensures
        from <= group_end(text, from) <= text.len(),
        group_end(text, from) < text.len() ==> text[group_end(text, from)] == 0x3A,
        forall|i: int| from <= i < group_end(text, from) ==> text[i] != 0x3A,
    decreases text.len() - from,
{
    if from < text.len() && text[from] != 0x3A {
        lemma_group_end_bounds(text, from + 1);
    }
}

/// The octets of the colon-separated groups from `from` on, if every group
/// is an octet.
pub open spec fn parse_groups(text: Seq<u8>, from: int) -> Option<Seq<u8>>
    decreases text.len() - from,
    when 0 <= from <= text.len()
{
    let end = group_end(text, from);
    match parse_octet(text.subrange(from, end)) {
        None => None,
        Some(octet) => if end >= text.len() {
            Some(seq![octet])
        } else {
            proof {
                lemma_group_end_bounds(text, from);
            }
            match parse_groups(text, end + 1) {
                None => None,
                Some(rest) => Some(seq![octet] + rest),
            }
        },
    }
}

/// The address that a text stands for: six colon-separated octets.
pub open spec fn parse_address_spec(text: Seq<u8>) -> Option<Seq<u8>> {
    match parse_groups(text, 0) {
        Some(octets) => if octets.len() == 6 {
            Some(octets)
        } else {
            None
        },
        None => None,
    }
}

/// The octets of an optional address.
pub open spec fn octets_view(addr: Option<[u8; 6]>) -> Option<Seq<u8>> {
    match addr {
        Some(a) => Some(a@),
        None => None,
    }
}

/// The bytes of an optional key.
pub open spec fn key_view(key: Option<[u8; 16]>) -> Option<Seq<u8>> {
    match key {
        Some(k) => Some(k@),
        None => None,
    }
}

/// The value of one ASCII hexadecimal digit, in either case.
pub fn hex_digit_value(c: u8) -> (value: Option<u8>)
    ensures
        value == hex_digit(c),
{
    if 0x30 <= c && c <= 0x39 {
        Some(c - 0x30)
    } else if 0x41 <= c && c <= 0x46 {
        Some(c - 0x41 + 10)
    } else if 0x61 <= c && c <= 0x66 {
        Some(c - 0x61 + 10)
    } else {
        None
    }
}

proof fn lemma_hex_value_prefix(digits: Seq<u8>, k: int)
    requires
        0 <= k <= digits.len(),
    ensures
        hex_value(digits.take(k)) <= hex_value(digits),
    decreases digits.len(),
{
    if k == digits.len() {
        assert(digits.take(k) =~= digits);
    } else {
        lemma_hex_value_prefix(digits.drop_last(), k);
        assert(digits.drop_last().take(k) =~= digits.take(k));
    }
}

/// Parses the group `start..end` of an address text as one octet.
fn parse_octet_at(bytes: &[u8], start: usize, end: usize) -> (octet: Option<u8>)
    requires
        start <= end <= bytes@.len(),
    ensures
        octet == parse_octet(bytes@.subrange(start as int, end as int)),
{
    let ghost group = bytes@.subrange(start as int, end as int);
    let mut i: usize = start;
    if i < end && bytes[i] == 0x2B {
        i += 1;
    }
    let first: usize = i;
    let ghost digits = bytes@.subrange(first as int, end as int);
    assert(digits =~= octet_digits(group));
    if i >= end {
        return None;
    }
    let mut acc: u32 = 0;
    assert(bytes@.subrange(first as int, i as int) =~= Seq::<u8>::empty());
    while i < end
        invariant
            start <= first <= i <= end <= bytes@.len(),
            digits == bytes@.subrange(first as int, end as int),
            digits == octet_digits(bytes@.subrange(start as int, end as int)),
            all_hex(bytes@.subrange(first as int, i as int)),
            acc == hex_value(bytes@.subrange(first as int, i as int)),
            acc <= 255,
        decreases end - i,
    {
        let ghost prefix = bytes@.subrange(first as int, i as int);
        let ghost longer = bytes@.subrange(first as int, i + 1);
        assert(longer.drop_last() =~= prefix);
        assert(longer.last() == bytes@[i as int]);
        assert(digits[i - first] == bytes@[i as int]);
        match hex_digit_value(bytes[i]) {
            None => {
                return None;
            },
            Some(d) => {
                let next: u32 = acc * 16 + d as u32;
                assert(next == hex_value(longer));
                if next > 255 {
                    proof {
                        lemma_hex_value_prefix(digits, i + 1 - first);
                        assert(digits.take(i + 1 - first) =~= longer);
                    }
                    return None;
                }
                acc = next;
                assert(all_hex(longer)) by {
                    assert forall|j: int| 0 <= j < longer.len() implies hex_digit(
                        #[trigger] longer[j],
                    ) is Some by {
                        if j < prefix.len() {
                            assert(longer[j] == prefix[j]);
                        }
                    }
                }
            },
        }
        i += 1;
    }
    assert(bytes@.subrange(first as int, i as int) =~= digits);
    Some(acc as u8)
}

/// What is known of the whole text once the groups before `from` have been
/// read as `done`.
spec fn prepend(done: Seq<u8>, rest: Option<Seq<u8>>) -> Option<Seq<u8>> {
    match rest {
        Some(r) => Some(done + r),
        None => None,
    }
}

proof fn lemma_groups_nonempty(text: Seq<u8>, from: int)
    requires
        0 <= from <= text.len(),
    ensures
        parse_groups(text, from) matches Some(octets) ==> octets.len() >= 1,
{
}

/// Parses six colon-separated octets from the bytes of an address text.
pub fn parse_address_bytes(bytes: &[u8]) -> (addr: Option<[u8; 6]>)
    ensures
        octets_view(addr) == parse_address_spec(bytes@),
{
    let n: usize = bytes.len();
    let mut out: [u8; 6] = [0u8; 6];
    let mut count: usize = 0;
    let mut pos: usize = 0;
    assert(out@.take(0) + parse_groups(bytes@, 0).unwrap() =~= parse_groups(bytes@, 0).unwrap());
    loop
        invariant
            n == bytes@.len(),
            pos <= n,
            count <= 6,
            prepend(out@.take(count as int), parse_groups(bytes@, pos as int)) == parse_groups(
                bytes@,
                0,
            ),
        decreases n - pos,
    {
        let mut end: usize = pos;
        while end < n && bytes[end] != 0x3A
            invariant
                n == bytes@.len(),
                pos <= end <= n,
                group_end(bytes@, pos as int) == group_end(bytes@, end as int),
            decreases n - end,
        {
            end += 1;
        }
        proof {
            lemma_group_end_bounds(bytes@, pos as int);
            lemma_groups_nonempty(bytes@, pos as int);
        }
        let ghost done = out@.take(count as int);
        match parse_octet_at(bytes, pos, end) {
            None => {
                return None;
            },
            Some(octet) => {
                if count == 6 {
                    return None;
                }
                out[count] = octet;
                count += 1;
                assert(out@.take(count as int) =~= done.push(octet));
                if end >= n {
                    assert(done + seq![octet] =~= done.push(octet));
                    if count == 6 {
                        assert(out@.take(6) =~= out@);
                        return Some(out);
                    } else {
                        return None;
                    }
                }
                proof {
                    if parse_groups(bytes@, end + 1) is Some {
                        let rest = parse_groups(bytes@, end + 1).unwrap();
                        assert(done + (seq![octet] + rest) =~= done.push(octet) + rest);
                    }
                }
                pos = end + 1;
            },
        }
    }
}

/// Parses the textual form of a Bluetooth address: six octets, separated by
/// colons, each written as an optional `+` and hexadecimal digits.
pub fn parse_address(text: &str) -> (addr: Option<[u8; 6]>)
    ensures
        octets_view(addr) == parse_address_spec(text.spec_bytes()),
{
    parse_address_bytes(text.as_bytes())
}

/// The error type of `hex::decode`. Nothing is said of what it holds; it is
/// only carried from the call to the place that drops it.
#[verifier::external_type_specification]
#[verifier::external_body]
pub struct ExFromHexError(FromHexError);

/// Calls `hex::decode`. It succeeds on an even number of hexadecimal digits,
/// in either case, and then returns the byte of each pair, high digit first;
/// on any other text it returns the crate's error.
#[verifier::external_body]
fn hex_decode(text: &str) -> (decoded: Result<Vec<u8>, FromHexError>)
    ensures
        decoded is Ok <==> is_hex_text(text.spec_bytes()),
        decoded matches Ok(bytes) ==> bytes@ == hex_bytes(text.spec_bytes()),
{
    hex::decode(text)
}

/// Takes decoded key material as a key if it is sixteen bytes long.
pub fn key_from_bytes(bytes: &Vec<u8>) -> (key: Option<[u8; 16]>)
    ensures
        key_view(key) == if bytes@.len() == 16 {
            Some(bytes@)
        } else {
            None
        },
{
    if bytes.len() != 16 {
        return None;
    }
    let mut out: [u8; 16] = [0u8; 16];
    let mut i: usize = 0;
    while i < 16
        invariant
            i <= 16,
            bytes@.len() == 16,
            forall|j: int| 0 <= j < i ==> out@[j] == bytes@[j],
        decreases 16 - i,
    {
        out[i] = bytes[i];
        i += 1;
    }
    assert(out@ =~= bytes@);
    Some(out)
}

/// Reads a sixteen-byte key from its hexadecimal dump. Anything that is not
/// a dump of exactly sixteen bytes yields no key.
pub fn key_from_hex(text: &str) -> (key: Option<[u8; 16]>)
    ensures
        key_view(key) == key_of_text(text.spec_bytes()),
{
    match hex_decode(text) {
        Ok(bytes) => key_from_bytes(&bytes),
        Err(_) => None,
    }
}

/// The six octets of an address, in textual order, as one 48-bit number.
pub open spec fn address_key_spec(addr: Seq<u8>) -> u64 {
    (addr[0] as int * 0x100_0000_0000 + addr[1] as int * 0x1_0000_0000 + addr[2] as int
        * 0x100_0000 + addr[3] as int * 0x1_0000 + addr[4] as int * 0x100 + addr[5] as int) as u64
}

/// Packs an address into the number that the address caches are keyed by.
pub fn address_key(addr: &[u8; 6]) -> (key: u64)
    ensures
        key == address_key_spec(addr@),
{
    let a0: u64 = addr[0] as u64;
    let a1: u64 = addr[1] as u64;
    let a2: u64 = addr[2] as u64;
    let a3: u64 = addr[3] as u64;
    let a4: u64 = addr[4] as u64;
    let a5: u64 = addr[5] as u64;
    a0 * 0x100_0000_0000 + a1 * 0x1_0000_0000 + a2 * 0x100_0000 + a3 * 0x1_0000 + a4 * 0x100 + a5
}

proof fn lemma_split_unique(hi_a: int, lo_a: int, hi_b: int, lo_b: int, base: int)
    requires
        base > 0,
        0 <= lo_a < base,
        0 <= lo_b < base,
        hi_a * base + lo_a == hi_b * base + lo_b,
    ensures
        hi_a == hi_b,
        lo_a == lo_b,
{
    assert((hi_a - hi_b) * base == lo_b - lo_a) by (nonlinear_arith)
        requires
            hi_a * base + lo_a == hi_b * base + lo_b,
    ;
    assert(hi_a == hi_b) by (nonlinear_arith)
        requires
            (hi_a - hi_b) * base == lo_b - lo_a,
            -base < lo_b - lo_a < base,
            base > 0,
    ;
}

/// Different addresses have different keys.
pub proof fn lemma_address_key_injective(a: Seq<u8>, b: Seq<u8>)
    requires
        a.len() == 6,
        b.len() == 6,
        address_key_spec(a) == address_key_spec(b),
    ensures
        a == b,
{
    let ra4 = a[4] as int * 0x100 + a[5] as int;
    let rb4 = b[4] as int * 0x100 + b[5] as int;
    let ra3 = a[3] as int * 0x1_0000 + ra4;
    let rb3 = b[3] as int * 0x1_0000 + rb4;
    let ra2 = a[2] as int * 0x100_0000 + ra3;
    let rb2 = b[2] as int * 0x100_0000 + rb3;
    let ra1 = a[1] as int * 0x1_0000_0000 + ra2;
    let rb1 = b[1] as int * 0x1_0000_0000 + rb2;
    let ra0 = a[0] as int * 0x100_0000_0000 + ra1;
    let rb0 = b[0] as int * 0x100_0000_0000 + rb1;
    assert(address_key_spec(a) == ra0 && address_key_spec(b) == rb0);
    lemma_split_unique(a[0] as int, ra1, b[0] as int, rb1, 0x100_0000_0000);
    lemma_split_unique(a[1] as int, ra2, b[1] as int, rb2, 0x1_0000_0000);
    lemma_split_unique(a[2] as int, ra3, b[2] as int, rb3, 0x100_0000);
    lemma_split_unique(a[3] as int, ra4, b[3] as int, rb4, 0x1_0000);
    lemma_split_unique(a[4] as int, a[5] as int, b[4] as int, b[5] as int, 0x100);
    assert(a =~= b);
}

} // verus!
