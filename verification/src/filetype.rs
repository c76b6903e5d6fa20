//! Which files count as binaries: by extension first, then by the magic number at the
//! start of the file.

use vstd::prelude::*;
use vstd::string::StringSliceAdditionalSpecFns;

verus! {

/// What a file's extension says about whether it is a binary to compare.
#[derive(Debug, Clone, Copy, PartialEq, Eq, Structural)]
pub enum ExtensionClass {
    /// A Binary Ninja database (`bndb`): never compared.
    Excluded,
    /// An extension of executables, libraries or objects: always compared.
    KnownBinary,
    /// Any other extension, or none: the file's first four bytes decide.
    Unknown,
}

/// `b` with an ASCII capital letter mapped to its lower case.
pub open spec fn ascii_lower_byte(b: u8) -> u8 {
    if 65 <= b <= 90 {
        (b + 32) as u8
    } else {
        b
    }
}

/// `s` with every ASCII capital letter mapped to its lower case.
pub open spec fn ascii_lowercase(s: Seq<u8>) -> Seq<u8> {
    s.map_values(|b: u8| ascii_lower_byte(b))
}

/// The lower-case extensions of executables, libraries and object files.
pub open spec fn is_known_binary_extension(e: Seq<u8>) -> bool {
    ||| e == seq![('e' as u8), ('x' as u8), ('e' as u8)]
    ||| e == seq![('d' as u8), ('l' as u8), ('l' as u8)]
    ||| e == seq![('s' as u8), ('y' as u8), ('s' as u8)]
    ||| e == seq![('b' as u8), ('i' as u8), ('n' as u8)]
    ||| e == seq![('s' as u8), ('o' as u8)]
    ||| e == seq![('d' as u8), ('y' as u8), ('l' as u8), ('i' as u8), ('b' as u8)]
    ||| e == seq![('o' as u8)]
    ||| e == seq![('e' as u8), ('l' as u8), ('f' as u8)]
}

/// The class of an extension given by its UTF-8 bytes, compared without regard to
/// ASCII case.
pub open spec fn extension_class_spec(extension: Seq<u8>) -> ExtensionClass {
    let e = ascii_lowercase(extension);
    if e == seq![('b' as u8), ('n' as u8), ('d' as u8), ('b' as u8)] {
        ExtensionClass::Excluded
    } else if is_known_binary_extension(e) {
        ExtensionClass::KnownBinary
    } else {
        ExtensionClass::Unknown
    }
}

/// Lowering maps each byte on its own: an ASCII capital letter to the same letter in
/// lower case (32 higher), every other byte to itself; the length is kept.
pub proof fn lemma_ascii_lowercase_bytes(e: Seq<u8>)
    ensures
        ascii_lowercase(e).len() == e.len(),
        forall|i: int|
            0 <= i < e.len() ==> #[trigger] ascii_lowercase(e)[i] == if 'A' as u8 <= e[i] <= 'Z' as u8 {
                e[i] + 32
            } else {
                e[i] as int
            },
{
}

/// An extension is excluded exactly when, lowered, it is `bndb`, and counts as a known
/// binary exactly when, lowered, it is one of `exe`, `dll`, `sys`, `bin`, `so`, `dylib`,
/// `o` and `elf`.
pub proof fn lemma_extension_classes(e: Seq<u8>)
    ensures
        extension_class_spec(e) == ExtensionClass::Excluded <==> ascii_lowercase(e) == seq![
            'b' as u8,
            'n' as u8,
            'd' as u8,
            'b' as u8,
        ],
        extension_class_spec(e) == ExtensionClass::KnownBinary <==> {
            let l = ascii_lowercase(e);
            ||| l == seq!['e' as u8, 'x' as u8, 'e' as u8]
            ||| l == seq!['d' as u8, 'l' as u8, 'l' as u8]
            ||| l == seq!['s' as u8, 'y' as u8, 's' as u8]
            ||| l == seq!['b' as u8, 'i' as u8, 'n' as u8]
            ||| l == seq!['s' as u8, 'o' as u8]
            ||| l == seq!['d' as u8, 'y' as u8, 'l' as u8, 'i' as u8, 'b' as u8]
            ||| l == seq!['o' as u8]
            ||| l == seq!['e' as u8, 'l' as u8, 'f' as u8]
        },
{
    let l = ascii_lowercase(e);
    let bndb = seq!['b' as u8, 'n' as u8, 'd' as u8, 'b' as u8];
    if l == bndb {
        assert(!(l == seq!['e' as u8, 'x' as u8, 'e' as u8]) && !(l == seq!['d' as u8, 'l' as u8, 'l' as u8])
            && !(l == seq!['s' as u8, 'y' as u8, 's' as u8]) && !(l == seq![
            'b' as u8,
            'i' as u8,
            'n' as u8,
        ]) && !(l == seq!['s' as u8, 'o' as u8]) && !(l == seq![
            'd' as u8,
            'y' as u8,
            'l' as u8,
            'i' as u8,
            'b' as u8,
        ]) && !(l == seq!['o' as u8]) && !(l == seq!['e' as u8, 'l' as u8, 'f' as u8])) by {
            assert(l.len() == 4);
            assert(l[1] == 'n' as u8);
        }
    }
}

fn bytes_equal(a: &[u8], b: &[u8]) -> (eq: bool)
    ensures
        eq == (a@ == b@),
{
    if a.len() != b.len() {
        return false;
    }
    let n = a.len();
    for i in 0..n
        invariant
            n == a@.len(),
            n == b@.len(),
            forall|k: int| 0 <= k < i ==> a@[k] == b@[k],
    {
        if a[i] != b[i] {
            return false;
        }
    }
    assert(a@ =~= b@);
    true
}

/// Classifies a file by its extension (empty when the file has none).
pub fn classify_extension(extension: &str) -> (class: ExtensionClass)
    ensures
        class == extension_class_spec(extension.spec_bytes()),
{
    let bytes = extension.as_bytes();
    let n = bytes.len();
    let mut lower: Vec<u8> = Vec::new();
    for i in 0..n
        invariant
            n == bytes@.len(),
            lower@ == ascii_lowercase(bytes@.take(i as int)),
    {
        let b = bytes[i];
        let l: u8 = if 65 <= b && b <= 90 { b + 32 } else { b };
        lower.push(l);
        assert(ascii_lowercase(bytes@.take(i + 1)) =~= ascii_lowercase(bytes@.take(i as int)).push(
            l,
        ));
    }
    assert(bytes@.take(n as int) =~= bytes@);
    let e = lower.as_slice();
    let bndb: [u8; 4] = ['b' as u8, 'n' as u8, 'd' as u8, 'b' as u8];
    assert(bndb@ == seq!['b' as u8, 'n' as u8, 'd' as u8, 'b' as u8]);
    if bytes_equal(e, &bndb) {
        return ExtensionClass::Excluded;
    }
    let exe: [u8; 3] = ['e' as u8, 'x' as u8, 'e' as u8];
    let dll: [u8; 3] = ['d' as u8, 'l' as u8, 'l' as u8];
    let sys: [u8; 3] = ['s' as u8, 'y' as u8, 's' as u8];
    let bin: [u8; 3] = ['b' as u8, 'i' as u8, 'n' as u8];
    let so: [u8; 2] = ['s' as u8, 'o' as u8];
    let dylib: [u8; 5] = ['d' as u8, 'y' as u8, 'l' as u8, 'i' as u8, 'b' as u8];
    let o: [u8; 1] = ['o' as u8];
    let elf: [u8; 3] = ['e' as u8, 'l' as u8, 'f' as u8];
    assert(exe@ == seq!['e' as u8, 'x' as u8, 'e' as u8]);
    assert(dll@ == seq!['d' as u8, 'l' as u8, 'l' as u8]);
    assert(sys@ == seq!['s' as u8, 'y' as u8, 's' as u8]);
    assert(bin@ == seq!['b' as u8, 'i' as u8, 'n' as u8]);
    assert(so@ == seq!['s' as u8, 'o' as u8]);
    assert(dylib@ == seq!['d' as u8, 'y' as u8, 'l' as u8, 'i' as u8, 'b' as u8]);
    assert(o@ == seq!['o' as u8]);
    assert(elf@ == seq!['e' as u8, 'l' as u8, 'f' as u8]);
    let known = bytes_equal(e, &exe) || bytes_equal(e, &dll) || bytes_equal(e, &sys)
        || bytes_equal(e, &bin) || bytes_equal(e, &so) || bytes_equal(e, &dylib) || bytes_equal(
        e,
        &o,
    ) || bytes_equal(e, &elf);
    if known {
        ExtensionClass::KnownBinary
    } else {
        ExtensionClass::Unknown
    }
}

/// The first four bytes of a PE (`MZ`), ELF, Mach-O (either byte order, 32 or 64 bit)
/// or universal Mach-O file.
pub open spec fn is_executable_magic(h: Seq<u8>) -> bool {
    ||| h[0] == 0x4d && h[1] == 0x5a
    ||| h[0] == 0x7f && h[1] == 0x45 && h[2] == 0x4c && h[3] == 0x46
    ||| h[0] == 0xfe && h[1] == 0xed && h[2] == 0xfa && h[3] == 0xce
    ||| h[0] == 0xce && h[1] == 0xfa && h[2] == 0xed && h[3] == 0xfe
    ||| h[0] == 0xfe && h[1] == 0xed && h[2] == 0xfa && h[3] == 0xcf
    ||| h[0] == 0xcf && h[1] == 0xfa && h[2] == 0xed && h[3] == 0xfe
    ||| h[0] == 0xca && h[1] == 0xfe && h[2] == 0xba && h[3] == 0xbe
}

/// A four-byte header is executable magic exactly when it begins with `MZ` or is one of
/// the six ELF and Mach-O magic numbers.
pub proof fn lemma_executable_magic_prefixes(h: Seq<u8>)
    requires
        h.len() == 4,
    ensures
        is_executable_magic(h) <==> {
            ||| h.take(2) == seq![0x4du8, 0x5a]
            ||| h == seq![0x7fu8, 0x45, 0x4c, 0x46]
            ||| h == seq![0xfeu8, 0xed, 0xfa, 0xce]
            ||| h == seq![0xceu8, 0xfa, 0xed, 0xfe]
            ||| h == seq![0xfeu8, 0xed, 0xfa, 0xcf]
            ||| h == seq![0xcfu8, 0xfa, 0xed, 0xfe]
            ||| h == seq![0xcau8, 0xfe, 0xba, 0xbe]
        },
{
    let mz = seq![0x4du8, 0x5a];
    assert(h.take(2) == mz <==> (h[0] == 0x4d && h[1] == 0x5a)) by {
        if h[0] == 0x4d && h[1] == 0x5a {
            assert(h.take(2) =~= mz);
        }
        if h.take(2) == mz {
            assert(h.take(2)[0] == mz[0] && h.take(2)[1] == mz[1]);
        }
    }
    let four = |a: u8, b: u8, c: u8, d: u8| seq![a, b, c, d];
    assert forall|a: u8, b: u8, c: u8, d: u8|
        #![trigger four(a, b, c, d)]
        h == four(a, b, c, d) <==> (h[0] == a && h[1] == b && h[2] == c && h[3] == d) by {
        if h[0] == a && h[1] == b && h[2] == c && h[3] == d {
            assert(h =~= four(a, b, c, d));
        }
    }
    assert(four(0x7f, 0x45, 0x4c, 0x46) == seq![0x7fu8, 0x45, 0x4c, 0x46]);
    assert(four(0xfe, 0xed, 0xfa, 0xce) == seq![0xfeu8, 0xed, 0xfa, 0xce]);
    assert(four(0xce, 0xfa, 0xed, 0xfe) == seq![0xceu8, 0xfa, 0xed, 0xfe]);
    assert(four(0xfe, 0xed, 0xfa, 0xcf) == seq![0xfeu8, 0xed, 0xfa, 0xcf]);
    assert(four(0xcf, 0xfa, 0xed, 0xfe) == seq![0xcfu8, 0xfa, 0xed, 0xfe]);
    assert(four(0xca, 0xfe, 0xba, 0xbe) == seq![0xcau8, 0xfe, 0xba, 0xbe]);
}

/// Whether a file's first four bytes are the magic number of an executable format.
pub fn has_executable_magic(header: [u8; 4]) -> (r: bool)
    ensures
        r == is_executable_magic(header@),
        r <==> {
            ||| header@.take(2) == seq![0x4du8, 0x5a]
            ||| header@ == seq![0x7fu8, 0x45, 0x4c, 0x46]
            ||| header@ == seq![0xfeu8, 0xed, 0xfa, 0xce]
            ||| header@ == seq![0xceu8, 0xfa, 0xed, 0xfe]
            ||| header@ == seq![0xfeu8, 0xed, 0xfa, 0xcf]
            ||| header@ == seq![0xcfu8, 0xfa, 0xed, 0xfe]
            ||| header@ == seq![0xcau8, 0xfe, 0xba, 0xbe]
        },
{
    proof {
        lemma_executable_magic_prefixes(header@);
    }
    let h = header;
    (h[0] == 0x4d && h[1] == 0x5a) || (h[0] == 0x7f && h[1] == 0x45 && h[2] == 0x4c && h[3] == 0x46)
        || (h[0] == 0xfe && h[1] == 0xed && h[2] == 0xfa && h[3] == 0xce) || (h[0] == 0xce && h[1]
        == 0xfa && h[2] == 0xed && h[3] == 0xfe) || (h[0] == 0xfe && h[1] == 0xed && h[2] == 0xfa
        && h[3] == 0xcf) || (h[0] == 0xcf && h[1] == 0xfa && h[2] == 0xed && h[3] == 0xfe) || (h[0]
        == 0xca && h[1] == 0xfe && h[2] == 0xba && h[3] == 0xbe)
}

/// Whether a file is a binary to compare, given its extension (empty when it has none)
/// and its first four bytes (`None` when they could not be read). The header matters
/// only for a file whose extension does not decide.
pub fn is_binary_file(extension: &str, header: Option<[u8; 4]>) -> (r: bool)
    ensures
        r == match extension_class_spec(extension.spec_bytes()) {
            ExtensionClass::Excluded => false,
            ExtensionClass::KnownBinary => true,
            ExtensionClass::Unknown => match header {
                Some(h) => is_executable_magic(h@),
                None => false,
            },
        },
{
    match classify_extension(extension) {
        ExtensionClass::Excluded => false,
        ExtensionClass::KnownBinary => true,
        ExtensionClass::Unknown => match header {
            Some(h) => has_executable_magic(h),
            None => false,
        },
    }
}

} // verus!
