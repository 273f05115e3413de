//! Identifiers of the tablet's assets, and the inode numbers made from them.
use vstd::prelude::*;

verus! {

/// The sixteen bytes of a UUID.
#[derive(Clone, Copy, Debug)]
pub struct Uuid {
    pub bytes: [u8; 16],
}

impl View for Uuid {
    type V = Seq<u8>;

    open spec fn view(&self) -> Seq<u8> {
        self.bytes@
    }
}

/// Why a string is no UUID, as the `uuid` crate reports it.
#[verifier::external_type_specification]
#[verifier::external_body]
pub struct ExUuidError(::uuid::Error);

/// The lower case hexadecimal digit of `n`, which is below 16.
pub open spec fn hex_digit(n: int) -> char {
    if n < 10 {
        ('0' as int + n) as char
    } else {
        ('a' as int + (n - 10)) as char
    }
}

/// The value of a hexadecimal digit of either case.
pub open spec fn hex_value(c: char) -> Option<int> {
    if '0' <= c <= '9' {
        Some(c as int - '0' as int)
    } else if 'a' <= c <= 'f' {
        Some(c as int - 'a' as int + 10)
    } else if 'A' <= c <= 'F' {
        Some(c as int - 'A' as int + 10)
    } else {
        None
    }
}

/// The half byte at place `k`, counted from the front.
pub open spec fn nibble(bytes: Seq<u8>, k: int) -> int {
    if k % 2 == 0 {
        bytes[k / 2] as int / 16
    } else {
        bytes[k / 2] as int % 16
    }
}

/// Whether place `i` of a hyphenated UUID holds a hyphen.
pub open spec fn hyphen_at(i: int) -> bool {
    i == 8 || i == 13 || i == 18 || i == 23
}

/// How many hyphens stand before place `i` of a hyphenated UUID.
pub open spec fn hyphens_before(i: int) -> int {
    if i <= 8 {
        0
    } else if i <= 13 {
        1
    } else if i <= 18 {
        2
    } else if i <= 23 {
        3
    } else {
        4
    }
}

/// The hyphenated form of a UUID, in lower case.
pub open spec fn hyphenated(bytes: Seq<u8>) -> Seq<char> {
    Seq::new(
        36,
        |i: int|
            if hyphen_at(i) {
                '-'
            } else {
                hex_digit(nibble(bytes, i - hyphens_before(i)))
            },
    )
}

/// Whether `s` is 32 hexadecimal digits, of either case, that spell `bytes`.
pub open spec fn simple_form(s: Seq<char>, bytes: Seq<u8>) -> bool {
    &&& s.len() == 32
    &&& forall|k: int| 0 <= k < 32 ==> #[trigger] hex_value(s[k]) == Some(nibble(bytes, k))
}

/// Whether `s` is five groups of hexadecimal digits, of either case, that spell `bytes`.
pub open spec fn hyphenated_form(s: Seq<char>, bytes: Seq<u8>) -> bool {
    &&& s.len() == 36
    &&& forall|i: int|
        #![trigger s[i]]
        0 <= i < 36 ==> if hyphen_at(i) {
            s[i] == '-'
        } else {
            hex_value(s[i]) == Some(nibble(bytes, i - hyphens_before(i)))
        }
}

/// Whether `s` begins with `urn:uuid:`, whose letters may be of either case.
pub open spec fn urn_prefixed(s: Seq<char>) -> bool {
    &&& s.len() >= 9
    &&& s[0] == 'u' || s[0] == 'U'
    &&& s[1] == 'r' || s[1] == 'R'
    &&& s[2] == 'n' || s[2] == 'N'
    &&& s[3] == ':'
    &&& s[4] == 'u' || s[4] == 'U'
    &&& s[5] == 'u' || s[5] == 'U'
    &&& s[6] == 'i' || s[6] == 'I'
    &&& s[7] == 'd' || s[7] == 'D'
    &&& s[8] == ':'
}

/// Whether the string `s` stands for the UUID `bytes`: in simple form, in hyphenated form, or
/// in hyphenated form between braces or behind a URN prefix.
pub open spec fn denotes(s: Seq<char>, bytes: Seq<u8>) -> bool {
    &&& bytes.len() == 16
    &&& {
        ||| simple_form(s, bytes)
        ||| hyphenated_form(s, bytes)
        ||| s.len() == 38 && s[0] == '{' && s[37] == '}' && hyphenated_form(
            s.subrange(1, 37),
            bytes,
        )
        ||| s.len() == 45 && urn_prefixed(s) && hyphenated_form(s.subrange(9, 45), bytes)
    }
}

/// The UUID that `s` stands for, if it stands for one.
pub open spec fn parsed(s: Seq<char>) -> Option<Seq<u8>> {
    if exists|b: Seq<u8>| denotes(s, b) {
        Some(choose|b: Seq<u8>| denotes(s, b))
    } else {
        None
    }
}

/// Bytes are determined by their half bytes.
proof fn lemma_nibbles(a: Seq<u8>, b: Seq<u8>)
    requires
        a.len() == 16,
        b.len() == 16,
        forall|k: int| 0 <= k < 32 ==> #[trigger] nibble(a, k) == nibble(b, k),
    ensures
        a == b,
{
    assert forall|j: int| 0 <= j < 16 implies a[j] == b[j] by {
        assert(nibble(a, 2 * j) == nibble(b, 2 * j));
        assert(nibble(a, 2 * j + 1) == nibble(b, 2 * j + 1));
    }
}

proof fn lemma_hyphenated_form_unique(s: Seq<char>, a: Seq<u8>, b: Seq<u8>)
    requires
        a.len() == 16,
        b.len() == 16,
        hyphenated_form(s, a),
        hyphenated_form(s, b),
    ensures
        a == b,
{
    assert forall|k: int| 0 <= k < 32 implies #[trigger] nibble(a, k) == nibble(b, k) by {
        let i = if k < 8 {
            k
        } else if k < 12 {
            k + 1
        } else if k < 16 {
            k + 2
        } else if k < 20 {
            k + 3
        } else {
            k + 4
        };
        assert(hex_value(s[i]) == Some(nibble(a, k)));
    }
    lemma_nibbles(a, b);
}

/// A string stands for at most one UUID.
pub proof fn denotes_unique(s: Seq<char>, a: Seq<u8>, b: Seq<u8>)
    requires
        denotes(s, a),
        denotes(s, b),
    ensures
        a == b,
{
    if s.len() == 32 {
        assert forall|k: int| 0 <= k < 32 implies #[trigger] nibble(a, k) == nibble(b, k) by {
            assert(hex_value(s[k]) == Some(nibble(a, k)));
        }
        lemma_nibbles(a, b);
    } else if s.len() == 36 {
        lemma_hyphenated_form_unique(s, a, b);
    } else if s.len() == 38 {
        lemma_hyphenated_form_unique(s.subrange(1, 37), a, b);
    } else {
        lemma_hyphenated_form_unique(s.subrange(9, 45), a, b);
    }
}

/// What is read from a string is the UUID that it stands for, and a string from which nothing is
/// read stands for none.
pub proof fn parsed_iff_denotes(s: Seq<char>, bytes: Seq<u8>)
    ensures
        parsed(s) == Some(bytes) <==> denotes(s, bytes),
{
    if denotes(s, bytes) {
        denotes_unique(s, bytes, choose|b: Seq<u8>| denotes(s, b));
    }
}

/// The hyphenated form of a UUID is read back as that UUID.
pub proof fn hyphenated_round_trip(bytes: Seq<u8>)
    requires
        bytes.len() == 16,
    ensures
        denotes(hyphenated(bytes), bytes),
        parsed(hyphenated(bytes)) == Some(bytes),
{
    let s = hyphenated(bytes);
    assert forall|i: int| 0 <= i < 36 && !hyphen_at(i) implies hex_value(s[i]) == Some(
        nibble(bytes, i - hyphens_before(i)),
    ) by {
        let k = i - hyphens_before(i);
        assert(0 <= k < 32);
    }
    denotes_unique(s, bytes, choose|b: Seq<u8>| denotes(s, b));
}

/// Two UUIDs with the same hyphenated form are the same.
pub proof fn hyphenated_injective(a: Seq<u8>, b: Seq<u8>)
    requires
        a.len() == 16,
        b.len() == 16,
        hyphenated(a) == hyphenated(b),
    ensures
        a == b,
{
    hyphenated_round_trip(a);
    hyphenated_round_trip(b);
}

/// Calls `uuid::Uuid::parse_str`, which reads a UUID in simple, hyphenated, braced or URN form,
/// with hexadecimal digits of either case, and refuses every other string.
#[verifier::external_body]
fn parse_str(s: &str) -> (r: Result<Uuid, ::uuid::Error>)
    ensures
        match r {
            Ok(id) => denotes(s@, id@),
            Err(_) => forall|b: Seq<u8>| !denotes(s@, b),
        },
{
    ::uuid::Uuid::parse_str(s).map(|id| Uuid { bytes: id.into_bytes() })
}

/// Calls `uuid::fmt::Hyphenated::encode_lower`, which writes the five groups of lower case
/// hexadecimal digits of a UUID, with hyphens between them.
#[verifier::external_body]
pub(crate) fn encode_lower(id: &Uuid) -> (r: String)
    ensures
        r@ == hyphenated(id@),
{
    let mut buf = ::uuid::Uuid::encode_buffer();
    ::uuid::Uuid::from_bytes(id.bytes).hyphenated().encode_lower(&mut buf).to_string()
}

/// Calls `uuid::Uuid::new_v4`, which draws a random UUID and sets its version to 4 and its
/// variant to that of RFC 9562. Its other bits are left open: they are random.
#[verifier::external_body]
pub(crate) fn random_v4() -> (r: Uuid)
    ensures
        is_v4(r@),
{
    Uuid { bytes: ::uuid::Uuid::new_v4().into_bytes() }
}

/// Whether the version and variant bits are those of a random UUID.
pub open spec fn is_v4(bytes: Seq<u8>) -> bool {
    &&& bytes.len() == 16
    &&& bytes[6] / 16 == 4
    &&& bytes[8] / 64 == 2
}

impl Uuid {
    /// Reads a UUID; `None` where the string stands for none.
    pub fn parse(s: &str) -> (r: Option<Uuid>)
        ensures
            match r {
                Some(id) => parsed(s@) == Some(id@),
                None => parsed(s@) is None,
            },
    {
        match parse_str(s) {
            Ok(id) => {
                proof {
                    denotes_unique(s@, id@, choose|b: Seq<u8>| denotes(s@, b));
                }
                Some(id)
            },
            Err(_) => None,
        }
    }
}

/// The inode number of a UUID: its first eight bytes, the least significant one first.
pub open spec fn ino_of(bytes: Seq<u8>) -> u64 {
    (bytes[0] + bytes[1] * 0x100 + bytes[2] * 0x1_0000 + bytes[3] * 0x100_0000 + bytes[4]
        * 0x1_0000_0000 + bytes[5] * 0x100_0000_0000 + bytes[6] * 0x1_0000_0000_0000 + bytes[7]
        * 0x100_0000_0000_0000) as u64
}

/// Discards half the bytes of the UUID. 2^64 ought to be enough for anyone.
pub fn uuid_to_ino(id: Uuid) -> (r: u64)
    ensures
        r == ino_of(id@),
{
    let b = id.bytes;
    b[0] as u64 + b[1] as u64 * 0x100 + b[2] as u64 * 0x1_0000 + b[3] as u64 * 0x100_0000 + b[4]
        as u64 * 0x1_0000_0000 + b[5] as u64 * 0x100_0000_0000 + b[6] as u64 * 0x1_0000_0000_0000
        + b[7] as u64 * 0x100_0000_0000_0000
}

/// The value of `n` bytes from place `i` on, the least significant one first.
spec fn little_endian(bytes: Seq<u8>, i: int, n: nat) -> int
    decreases n,
{
    if n == 0 {
        0
    } else {
        bytes[i] + 0x100 * little_endian(bytes, i + 1, (n - 1) as nat)
    }
}

proof fn lemma_little_endian_injective(a: Seq<u8>, b: Seq<u8>, i: int, n: nat)
    requires
        little_endian(a, i, n) == little_endian(b, i, n),
    ensures
        forall|j: int| i <= j < i + n ==> a[j] == b[j],
    decreases n,
{
    if n > 0 {
        lemma_little_endian_injective(a, b, i + 1, (n - 1) as nat);
    }
}

proof fn lemma_ino_is_little_endian(bytes: Seq<u8>)
    ensures
        ino_of(bytes) == little_endian(bytes, 0, 8),
{
    reveal_with_fuel(little_endian, 9);
}

/// The bytes of an inode number, from the least significant one on, are the first eight bytes of
/// the UUID.
pub proof fn ino_holds_first_bytes(bytes: Seq<u8>)
    requires
        bytes.len() == 16,
    ensures
        ino_of(bytes) % 0x100 == bytes[0],
        ino_of(bytes) / 0x100 % 0x100 == bytes[1],
        ino_of(bytes) / 0x1_0000 % 0x100 == bytes[2],
        ino_of(bytes) / 0x100_0000 % 0x100 == bytes[3],
        ino_of(bytes) / 0x1_0000_0000 % 0x100 == bytes[4],
        ino_of(bytes) / 0x100_0000_0000 % 0x100 == bytes[5],
        ino_of(bytes) / 0x1_0000_0000_0000 % 0x100 == bytes[6],
        ino_of(bytes) / 0x100_0000_0000_0000 == bytes[7],
{
    let n = ino_of(bytes) as int;
    lemma_ino_is_little_endian(bytes);
    reveal_with_fuel(little_endian, 9);
    vstd::arithmetic::div_mod::lemma_div_denominator(n, 0x100, 0x100);
    vstd::arithmetic::div_mod::lemma_div_denominator(n, 0x1_0000, 0x100);
    vstd::arithmetic::div_mod::lemma_div_denominator(n, 0x100_0000, 0x100);
    vstd::arithmetic::div_mod::lemma_div_denominator(n, 0x1_0000_0000, 0x100);
    vstd::arithmetic::div_mod::lemma_div_denominator(n, 0x100_0000_0000, 0x100);
    vstd::arithmetic::div_mod::lemma_div_denominator(n, 0x1_0000_0000_0000, 0x100);
    assert(n / 0x100 == little_endian(bytes, 1, 7));
    assert(n / 0x1_0000 == little_endian(bytes, 2, 6));
    assert(n / 0x100_0000 == little_endian(bytes, 3, 5));
    assert(n / 0x1_0000_0000 == little_endian(bytes, 4, 4));
    assert(n / 0x100_0000_0000 == little_endian(bytes, 5, 3));
    assert(n / 0x1_0000_0000_0000 == little_endian(bytes, 6, 2));
    assert(n / 0x100_0000_0000_0000 == little_endian(bytes, 7, 1));
}

/// Two UUIDs share an inode number exactly when their first eight bytes agree.
pub proof fn ino_collision(a: Seq<u8>, b: Seq<u8>)
    requires
        a.len() == 16,
        b.len() == 16,
    ensures
        ino_of(a) == ino_of(b) <==> a.subrange(0, 8) == b.subrange(0, 8),
{
    if ino_of(a) == ino_of(b) {
        lemma_ino_is_little_endian(a);
        lemma_ino_is_little_endian(b);
        lemma_little_endian_injective(a, b, 0, 8);
        assert(a.subrange(0, 8) =~= b.subrange(0, 8));
    }
    if a.subrange(0, 8) == b.subrange(0, 8) {
        assert forall|i: int| 0 <= i < 8 implies a[i] == b[i] by {
            assert(a[i] == a.subrange(0, 8)[i]);
        }
    }
}

/// The inode number of a random UUID is never that of the root directory.
pub proof fn v4_is_not_root(bytes: Seq<u8>)
    requires
        is_v4(bytes),
    ensures
        ino_of(bytes) > 1,
{
}

/// What is read from a string is the ID that it stands for, and the inode number of an ID is made
/// of its first eight bytes.
pub proof fn ids_by_calls(s: &str, id: Option<Uuid>, uuid: Uuid, ino: u64)
    requires
        call_ensures(Uuid::parse, (s,), id),
        call_ensures(uuid_to_ino, (uuid,), ino),
    ensures
        id matches Some(u) ==> denotes(s@, u.bytes@),
        id is None ==> forall|b: Seq<u8>| !denotes(s@, b),
        ino % 0x100 == uuid.bytes@[0],
        ino / 0x100 % 0x100 == uuid.bytes@[1],
        ino / 0x1_0000 % 0x100 == uuid.bytes@[2],
        ino / 0x100_0000 % 0x100 == uuid.bytes@[3],
        ino / 0x1_0000_0000 % 0x100 == uuid.bytes@[4],
        ino / 0x100_0000_0000 % 0x100 == uuid.bytes@[5],
        ino / 0x1_0000_0000_0000 % 0x100 == uuid.bytes@[6],
        ino / 0x100_0000_0000_0000 == uuid.bytes@[7],
{
    if id is Some {
        parsed_iff_denotes(s@, id->0.bytes@);
    }
    ino_holds_first_bytes(uuid.bytes@);
}

} // verus!
