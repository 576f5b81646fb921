//! Identities that compiled code and the runtime agree on: the GUID of a type,
//! its textual form, and the names of the entry points of an assembly.

use vstd::prelude::*;
use vstd::string::*;

verus! {

/// The version of the binary interface between compiled code and the runtime.
pub const ABI_VERSION: u32 = 0x0003_00;

/// The name of the entry point that describes an assembly.
pub fn get_info_fn_name() -> (name: &'static str)
    ensures
        name@ == "get_info"@,
{
    "get_info"
}

/// The name of the entry point that reports the version of the interface.
pub fn get_version_fn_name() -> (name: &'static str)
    ensures
        name@ == "get_version"@,
{
    "get_version"
}

/// The name of the entry point that hands the allocator to an assembly.
pub fn set_allocator_handle_fn_name() -> (name: &'static str)
    ensures
        name@ == "set_allocator_handle"@,
{
    "set_allocator_handle"
}

/// The MD5 digest of a sequence of bytes: sixteen bytes that depend on the
/// input alone.
pub uninterp spec fn md5_digest(input: Seq<u8>) -> Seq<u8>;

/// Calls `extendhash::md5::compute_hash`, which returns the MD5 hash of its
/// input. The contract only gives that hash its name.
#[verifier::external_body]
fn md5_compute_hash(input: &[u8]) -> (hash: [u8; 16])
    ensures
        hash@ == md5_digest(input@),
{
    extendhash::md5::compute_hash(input)
}

/// Represents a globally unique identifier (GUID).
#[derive(Clone, Copy, Debug, Eq, PartialEq, Hash, Ord, PartialOrd)]
pub struct Guid(pub [u8; 16]);

/// The position among the digits of a GUID's text that stands at place `j` of
/// the text, where `j` is not the place of a hyphen.
pub open spec fn digit_index(j: int) -> int {
    if j < 8 {
        j
    } else if j < 13 {
        j - 1
    } else if j < 18 {
        j - 2
    } else if j < 23 {
        j - 3
    } else {
        j - 4
    }
}

/// Whether place `j` of a GUID's text holds a hyphen.
pub open spec fn is_hyphen(j: int) -> bool {
    j == 8 || j == 13 || j == 18 || j == 23
}

/// The lower-case hexadecimal digit of a value below sixteen, in ASCII.
pub open spec fn hex_digit(nibble: u8) -> u8 {
    if nibble < 10 {
        (48 + nibble) as u8
    } else {
        (87 + nibble) as u8
    }
}

/// The ASCII character at place `j` of the hyphenated text of `bytes`.
pub open spec fn hyphenated_at(bytes: Seq<u8>, j: int) -> u8 {
    if is_hyphen(j) {
        45u8
    } else {
        let k = digit_index(j);
        if k % 2 == 0 {
            hex_digit(bytes[k / 2] / 16)
        } else {
            hex_digit(bytes[k / 2] % 16)
        }
    }
}

/// The hyphenated text of sixteen bytes: thirty-two lower-case hexadecimal
/// digits, most significant digit of each byte first, in groups of
/// 8, 4, 4, 4 and 12 digits with a hyphen between two groups.
pub open spec fn hyphenated(bytes: Seq<u8>) -> Seq<u8> {
    Seq::new(36, |j: int| hyphenated_at(bytes, j))
}

fn hex_digit_of(nibble: u8) -> (d: u8)
    requires
        nibble < 16,
    ensures
        d == hex_digit(nibble),
        d < 128,
{
    if nibble < 10 {
        48 + nibble
    } else {
        87 + nibble
    }
}

/// The text of the lower-case hexadecimal digit of a value below sixteen.
fn hex_text(nibble: u8) -> (text: &'static str)
    requires
        nibble < 16,
    ensures
        text@ == seq![hex_digit(nibble) as char],
{
    proof {
        reveal_strlit("0");
        reveal_strlit("1");
        reveal_strlit("2");
        reveal_strlit("3");
        reveal_strlit("4");
        reveal_strlit("5");
        reveal_strlit("6");
        reveal_strlit("7");
        reveal_strlit("8");
        reveal_strlit("9");
        reveal_strlit("a");
        reveal_strlit("b");
        reveal_strlit("c");
        reveal_strlit("d");
        reveal_strlit("e");
        reveal_strlit("f");
    }
    let text = if nibble == 0 {
        "0"
    } else if nibble == 1 {
        "1"
    } else if nibble == 2 {
        "2"
    } else if nibble == 3 {
        "3"
    } else if nibble == 4 {
        "4"
    } else if nibble == 5 {
        "5"
    } else if nibble == 6 {
        "6"
    } else if nibble == 7 {
        "7"
    } else if nibble == 8 {
        "8"
    } else if nibble == 9 {
        "9"
    } else if nibble == 10 {
        "a"
    } else if nibble == 11 {
        "b"
    } else if nibble == 12 {
        "c"
    } else if nibble == 13 {
        "d"
    } else if nibble == 14 {
        "e"
    } else {
        "f"
    };
    assert(text@ =~= seq![hex_digit(nibble) as char]);
    text
}

/// The characters of a text in ASCII.
pub open spec fn ascii_text(bytes: Seq<u8>) -> Seq<char> {
    bytes.map_values(|b: u8| b as char)
}

impl Guid {
    /// The sixteen bytes of the GUID.
    pub open spec fn bytes(&self) -> Seq<u8> {
        self.0@
    }

    /// Create a GUID from a string by computing its hash.
    pub fn from_str(str: &str) -> (guid: Guid)
        ensures
            guid.bytes() == md5_digest(str.spec_bytes()),
    {
        Guid(md5_compute_hash(str.as_bytes()))
    }

    /// Create a GUID from the bytes of a name by computing their hash.
    pub fn from_bytes(name: &[u8]) -> (guid: Guid)
        ensures
            guid.bytes() == md5_digest(name@),
    {
        Guid(md5_compute_hash(name))
    }

    /// Whether two GUIDs hold the same bytes.
    pub fn same(&self, other: &Guid) -> (b: bool)
        ensures
            b == (self.bytes() == other.bytes()),
            b == (*self == *other),
    {
        let mut i: usize = 0;
        while i < 16
            invariant
                0 <= i <= 16,
                forall|k: int| 0 <= k < i ==> self.0@[k] == other.0@[k],
            decreases 16 - i,
        {
            if self.0[i] != other.0[i] {
                return false;
            }
            i += 1;
        }
        assert(self.0 =~= other.0);
        true
    }

    /// The hyphenated text of the GUID, as ASCII bytes.
    pub fn format_hyphenated(&self) -> (dst: Vec<u8>)
        ensures
            dst@ == hyphenated(self.bytes()),
    {
        let mut dst: Vec<u8> = Vec::new();
        let mut j: usize = 0;
        let mut i: usize = 0;
        while j < 36
            invariant
                0 <= j <= 36,
                dst@.len() == j,
                j < 36 && !is_hyphen(j as int) ==> digit_index(j as int) == 2 * i,
                is_hyphen(j as int) ==> digit_index(j as int + 1) == 2 * i,
                j == 36 ==> i == 16,
                i <= 16,
                forall|k: int| 0 <= k < j ==> dst@[k] == hyphenated_at(self.0@, k),
            decreases 36 - j,
        {
            if j == 8 || j == 13 || j == 18 || j == 23 {
                dst.push(45u8);
                j += 1;
            } else {
                let x = self.0[i];
                let high = hex_digit_of(x / 16);
                let low = hex_digit_of(x % 16);
                dst.push(high);
                dst.push(low);
                i += 1;
                j += 2;
            }
        }
        assert(dst@ =~= hyphenated(self.bytes()));
        dst
    }

    /// The hyphenated text of the GUID.
    pub fn to_string(&self) -> (s: String)
        ensures
            s@ == ascii_text(hyphenated(self.bytes())),
    {
        let mut text = String::new();
        let mut j: usize = 0;
        let mut i: usize = 0;
        while j < 36
            invariant
                0 <= j <= 36,
                text@.len() == j,
                j < 36 && !is_hyphen(j as int) ==> digit_index(j as int) == 2 * i,
                is_hyphen(j as int) ==> digit_index(j as int + 1) == 2 * i,
                j == 36 ==> i == 16,
                i <= 16,
                forall|k: int| 0 <= k < j ==> text@[k] == hyphenated_at(self.0@, k) as char,
            decreases 36 - j,
        {
            if j == 8 || j == 13 || j == 18 || j == 23 {
                proof {
                    reveal_strlit("-");
                }
                text.append("-");
                j += 1;
            } else {
                let x = self.0[i];
                text.append(hex_text(x / 16));
                text.append(hex_text(x % 16));
                i += 1;
                j += 2;
            }
        }
        assert(text@ =~= ascii_text(hyphenated(self.bytes())));
        text
    }
}

/// Represents a unique identifier for types. The runtime can use this to look
/// up the corresponding type information.
#[derive(Clone, Copy, Debug, Eq, PartialEq, Hash)]
pub struct TypeId {
    /// The GUID of the type
    pub guid: Guid,
}

impl TypeId {
    /// The identifier of the type with the given GUID.
    pub fn from(guid: Guid) -> (id: TypeId)
        ensures
            id.guid == guid,
    {
        TypeId { guid }
    }

    /// The hyphenated text of the type's GUID.
    pub fn to_string(&self) -> (s: String)
        ensures
            s@ == ascii_text(hyphenated(self.guid.bytes())),
    {
        self.guid.to_string()
    }
}

/// Represents the privacy level of modules, functions, or variables.
#[derive(Clone, Copy, Debug, Eq, PartialEq)]
pub enum Privacy {
    /// Publicly (and privately) accessible
    Public,
    /// Privately accessible
    Private,
}

} // verus!
