//! Deletion vector descriptors and the place of the files that they name.

use vstd::prelude::*;

use crate::bitmap::big_endian;
use crate::error::{outcome, DeltaResult, Error, ErrorKind, ErrorModel};
use crate::text::{decimal, unsigned_text};

verus! {

/// Where the content of a deletion vector is kept.
#[derive(Clone, Copy, Debug, PartialEq, Eq, Structural)]
pub enum DeletionVectorStorageType {
    /// In a file whose name is encoded in the descriptor.
    PersistedRelative,
    /// In the descriptor itself.
    Inline,
    /// In a file at an absolute path.
    PersistedAbsolute,
}

/// A deletion vector as an action of the log describes it.
#[derive(Debug)]
pub struct DeletionVectorDescriptor {
    /// Where the content is kept.
    pub storage_type: DeletionVectorStorageType,
    /// The encoded file name, the absolute path or the content itself.
    pub path_or_inline_dv: String,
    /// Where in the file the content starts.
    pub offset: Option<i32>,
    /// The size of the serialized bitmap alone.
    pub size_in_bytes: i32,
    /// The number of rows that the vector deletes.
    pub cardinality: i64,
}

/// A deletion vector as an entry of the metadata tree holds it.
#[derive(Debug, PartialEq, Eq)]
pub struct DeletionVectorInfo {
    /// The path of the file.
    pub location: String,
    /// Where in the file the blob starts.
    pub offset: i64,
    /// The size of the whole blob: size prefix, bitmap and checksum.
    pub size_in_bytes: i64,
    /// The number of rows that the vector deletes.
    pub cardinality: i64,
}

/// The model of a [`DeletionVectorDescriptor`].
#[verifier::ext_equal]
pub ghost struct DescriptorModel {
    pub storage_type: DeletionVectorStorageType,
    pub path_or_inline_dv: Seq<char>,
    pub offset: Option<i32>,
    pub size_in_bytes: i32,
    pub cardinality: i64,
}

/// The model of a [`DeletionVectorInfo`].
#[verifier::ext_equal]
pub ghost struct DvModel {
    pub location: Seq<char>,
    pub offset: i64,
    pub size_in_bytes: i64,
    pub cardinality: i64,
}

impl View for DeletionVectorDescriptor {
    type V = DescriptorModel;

    open spec fn view(&self) -> DescriptorModel {
        DescriptorModel {
            storage_type: self.storage_type,
            path_or_inline_dv: self.path_or_inline_dv@,
            offset: self.offset,
            size_in_bytes: self.size_in_bytes,
            cardinality: self.cardinality,
        }
    }
}

impl View for DeletionVectorInfo {
    type V = DvModel;

    open spec fn view(&self) -> DvModel {
        DvModel {
            location: self.location@,
            offset: self.offset,
            size_in_bytes: self.size_in_bytes,
            cardinality: self.cardinality,
        }
    }
}

impl Clone for DeletionVectorInfo {
    fn clone(&self) -> (copy: Self)
        ensures
            copy@ == self@,
    {
        DeletionVectorInfo {
            location: self.location.clone(),
            offset: self.offset,
            size_in_bytes: self.size_in_bytes,
            cardinality: self.cardinality,
        }
    }
}

/// The error model of an unusable deletion vector.
pub open spec fn dv_error(message: Seq<char>) -> ErrorModel {
    ErrorModel { kind: ErrorKind::DeletionVector, message }
}

/// The letters of the storage types: `u`, `i` and `p`.
pub open spec fn storage_type_of(letter: Seq<char>) -> Option<DeletionVectorStorageType> {
    if letter == "u"@ {
        Some(DeletionVectorStorageType::PersistedRelative)
    } else if letter == "i"@ {
        Some(DeletionVectorStorageType::Inline)
    } else if letter == "p"@ {
        Some(DeletionVectorStorageType::PersistedAbsolute)
    } else {
        None
    }
}

/// The error for a storage type that is none of the letters.
pub open spec fn unknown_storage_type(letter: Seq<char>) -> ErrorModel {
    dv_error("Unknown storage type: "@ + letter)
}

impl DeletionVectorStorageType {
    /// Reads the letter of a storage type.
    pub fn parse(letter: &String) -> (storage_type: DeltaResult<DeletionVectorStorageType>)
        ensures
            match storage_type {
                Ok(t) => storage_type_of(letter@) == Some(t),
                Err(e) => storage_type_of(letter@) is None && e@ == unknown_storage_type(letter@),
            },
    {
        if *letter == "u".to_owned() {
            Ok(DeletionVectorStorageType::PersistedRelative)
        } else if *letter == "i".to_owned() {
            proof {
                reveal_strlit("u");
                reveal_strlit("i");
            }
            assert("u"@[0] != "i"@[0]);
            Ok(DeletionVectorStorageType::Inline)
        } else if *letter == "p".to_owned() {
            proof {
                reveal_strlit("u");
                reveal_strlit("i");
                reveal_strlit("p");
            }
            assert("u"@[0] != "p"@[0]);
            assert("i"@[0] != "p"@[0]);
            Ok(DeletionVectorStorageType::PersistedAbsolute)
        } else {
            let mut message = "Unknown storage type: ".to_owned();
            message.append(letter.as_str());
            Err(Error::new(ErrorKind::DeletionVector, message))
        }
    }
}

/// The value of a base-85 digit: digits, lower case, upper case, then 23 symbols.
pub open spec fn base85_value(c: char) -> Option<int> {
    if '0' <= c <= '9' {
        Some(c as int - '0' as int)
    } else if 'a' <= c <= 'z' {
        Some(c as int - 'a' as int + 10)
    } else if 'A' <= c <= 'Z' {
        Some(c as int - 'A' as int + 36)
    } else if exists|i: int| 0 <= i < 23 && base85_symbols()[i] == c {
        Some(62 + choose|i: int| 0 <= i < 23 && base85_symbols()[i] == c)
    } else {
        None
    }
}

/// The symbols that stand for 62 to 84.
pub open spec fn base85_symbols() -> Seq<char> {
    seq![
        '.', '-', ':', '+', '=', '^', '!', '/', '*', '?', '&', '<', '>', '(', ')', '[', ']', '{',
        '}', '@', '%', '$', '#',
    ]
}

/// The number that the first `n` of some base-85 digits stand for, most significant first.
pub open spec fn base85_number(text: Seq<char>, n: int) -> Option<int>
    decreases n,
{
    if n <= 0 {
        Some(0)
    } else {
        match (base85_number(text, n - 1), base85_value(text[n - 1])) {
            (Some(high), Some(low)) => Some(high * 85 + low),
            _ => None,
        }
    }
}

/// The four bytes that five base-85 digits stand for: their number, which has to fit in 32
/// bits, in big-endian order.
pub open spec fn base85_chunk(text: Seq<char>) -> Option<Seq<u8>> {
    match base85_number(text, 5) {
        Some(n) => if n <= u32::MAX {
            Some(big_endian(n as u32))
        } else {
            None
        },
        None => None,
    }
}

/// The bytes of the first `n` chunks of a base-85 text.
pub open spec fn base85_bytes(text: Seq<char>, n: int) -> Option<Seq<u8>>
    decreases n,
{
    if n <= 0 {
        Some(Seq::empty())
    } else {
        match (
            base85_bytes(text, n - 1),
            base85_chunk(text.subrange(5 * (n - 1), 5 * n)),
        ) {
            (Some(head), Some(chunk)) => Some(head + chunk),
            _ => None,
        }
    }
}

/// A hexadecimal digit in lower case.
pub open spec fn hex_digit(n: int) -> char {
    if n < 10 {
        (48 + n) as char
    } else {
        (87 + n) as char
    }
}

/// Bytes `from` to `to` in hexadecimal.
pub open spec fn hex_text(bytes: Seq<u8>, from: int, to: int) -> Seq<char>
    decreases to - from,
{
    if from >= to {
        Seq::empty()
    } else {
        hex_text(bytes, from, to - 1) + seq![
            hex_digit(bytes[to - 1] as int / 16),
            hex_digit(bytes[to - 1] as int % 16),
        ]
    }
}

/// The hyphenated text of a UUID.
pub open spec fn uuid_text(bytes: Seq<u8>) -> Seq<char> {
    hex_text(bytes, 0, 4) + "-"@ + hex_text(bytes, 4, 6) + "-"@ + hex_text(bytes, 6, 8) + "-"@
        + hex_text(bytes, 8, 10) + "-"@ + hex_text(bytes, 10, 16)
}

/// The error for an encoded path that is too short to hold a UUID.
pub open spec fn dv_path_too_short(length: int) -> ErrorModel {
    dv_error("Invalid length "@ + decimal(length) + ", must be >= 20"@)
}

/// The error for an encoded path whose UUID cannot be decoded.
pub open spec fn dv_path_undecodable() -> ErrorModel {
    dv_error("Failed to decode DV uuid"@)
}

/// The path, relative to the table, that `<prefix><base-85 UUID>` stands for.
pub open spec fn relative_dv_path(encoded: Seq<char>) -> Result<Seq<char>, ErrorModel> {
    let length = vstd::utf8::encode_utf8(encoded).len();
    let prefix_len = encoded.len() - 20;
    if length < 20 {
        Err(dv_path_too_short(length as int))
    } else if prefix_len < 0 {
        Err(dv_path_undecodable())
    } else {
        match base85_bytes(encoded.skip(prefix_len), 4) {
            Some(uuid) => {
                let file = "deletion_vector_"@ + uuid_text(uuid) + ".bin"@;
                if prefix_len == 0 {
                    Ok(file)
                } else {
                    Ok(encoded.take(prefix_len) + "/"@ + file)
                }
            },
            None => Err(dv_path_undecodable()),
        }
    }
}

/// What an entry of the tree holds for a deletion vector of the log: the path of the file,
/// and a size that counts the size prefix and the checksum around the bitmap as well.
pub open spec fn extracted_dv(dv: DescriptorModel) -> Result<DvModel, ErrorModel> {
    let location = match dv.storage_type {
        DeletionVectorStorageType::PersistedAbsolute => Ok(dv.path_or_inline_dv),
        DeletionVectorStorageType::PersistedRelative => relative_dv_path(dv.path_or_inline_dv),
        DeletionVectorStorageType::Inline => Err(
            dv_error("Inline deletion vectors are not supported. They must be persisted first."@),
        ),
    };
    match location {
        Ok(location) => Ok(
            DvModel {
                location,
                offset: match dv.offset {
                    Some(offset) => offset as i64,
                    None => 0,
                },
                size_in_bytes: (dv.size_in_bytes + 8) as i64,
                cardinality: dv.cardinality,
            },
        ),
        Err(e) => Err(e),
    }
}

/// The value of a base-85 symbol.
fn symbol_value(c: char) -> (value: Option<u32>)
    ensures
        match value {
            Some(v) => 62 <= v < 85 && base85_symbols()[v - 62] == c,
            None => forall|i: int| 0 <= i < 23 ==> base85_symbols()[i] != c,
        },
{
    if c == '.' {
        Some(62)
    } else if c == '-' {
        Some(63)
    } else if c == ':' {
        Some(64)
    } else if c == '+' {
        Some(65)
    } else if c == '=' {
        Some(66)
    } else if c == '^' {
        Some(67)
    } else if c == '!' {
        Some(68)
    } else if c == '/' {
        Some(69)
    } else if c == '*' {
        Some(70)
    } else if c == '?' {
        Some(71)
    } else if c == '&' {
        Some(72)
    } else if c == '<' {
        Some(73)
    } else if c == '>' {
        Some(74)
    } else if c == '(' {
        Some(75)
    } else if c == ')' {
        Some(76)
    } else if c == '[' {
        Some(77)
    } else if c == ']' {
        Some(78)
    } else if c == '{' {
        Some(79)
    } else if c == '}' {
        Some(80)
    } else if c == '@' {
        Some(81)
    } else if c == '%' {
        Some(82)
    } else if c == '$' {
        Some(83)
    } else if c == '#' {
        Some(84)
    } else {
        None
    }
}

/// Each symbol stands in one place only.
proof fn lemma_symbols_distinct(i: int, j: int)
    requires
        0 <= i < 23,
        0 <= j < 23,
        base85_symbols()[i] == base85_symbols()[j],
    ensures
        i == j,
{
}

/// The value of a base-85 digit.
fn digit_value(c: char) -> (value: Option<u32>)
    ensures
        match value {
            Some(v) => v < 85 && base85_value(c) == Some(v as int),
            None => base85_value(c) is None,
        },
{
    if '0' <= c && c <= '9' {
        Some(c as u32 - '0' as u32)
    } else if 'a' <= c && c <= 'z' {
        Some(c as u32 - 'a' as u32 + 10)
    } else if 'A' <= c && c <= 'Z' {
        Some(c as u32 - 'A' as u32 + 36)
    } else {
        let value = symbol_value(c);
        proof {
            if let Some(v) = value {
                let i = choose|i: int| 0 <= i < 23 && base85_symbols()[i] == c;
                assert(base85_symbols()[v - 62] == c);
                lemma_symbols_distinct(i, v - 62);
            }
        }
        value
    }
}

/// Decodes the five base-85 digits of `text` that start at `from`.
fn decode_chunk(text: &str, from: usize) -> (number: Option<u32>)
    requires
        from + 5 <= text@.len(),
    ensures
        match number {
            Some(n) => base85_chunk(text@.subrange(from as int, from + 5)) == Some(big_endian(n)),
            None => base85_chunk(text@.subrange(from as int, from + 5)) is None,
        },
{
    let ghost chunk = text@.subrange(from as int, from + 5);
    let length: usize = text.unicode_len();
    let mut number: u64 = 0;
    let mut i: usize = 0;
    let mut bound: u64 = 1;
    while i < 5
        invariant
            i <= 5,
            from + 5 <= length,
            length == text@.len(),
            chunk == text@.subrange(from as int, from + 5),
            base85_number(chunk, i as int) == Some(number as int),
            number < bound,
            i == 0 ==> bound == 1,
            i == 1 ==> bound == 85,
            i == 2 ==> bound == 7225,
            i == 3 ==> bound == 614125,
            i == 4 ==> bound == 52200625,
            i == 5 ==> bound == 4437053125,
        decreases 5 - i,
    {
        let c = text.get_char(from + i);
        assert(chunk[i as int] == c);
        match digit_value(c) {
            Some(v) => {
                number = number * 85 + v as u64;
                bound = bound * 85;
            },
            None => {
                proof {
                    lemma_bad_digit(chunk, i as int, 5);
                }
                return None;
            },
        }
        i += 1;
    }
    if number <= 0xffff_ffff {
        Some(number as u32)
    } else {
        None
    }
}

/// A text with a character that is no digit stands for no number.
proof fn lemma_bad_digit(text: Seq<char>, at: int, n: int)
    requires
        0 <= at < n,
        base85_value(text[at]) is None,
    ensures
        base85_number(text, n) is None,
    decreases n,
{
    if at < n - 1 {
        lemma_bad_digit(text, at, n - 1);
    }
}

/// A text with a chunk that cannot be decoded stands for no bytes.
proof fn lemma_bad_chunk(text: Seq<char>, at: int, n: int)
    requires
        0 <= at < n,
        base85_chunk(text.subrange(5 * at, 5 * (at + 1))) is None,
    ensures
        base85_bytes(text, n) is None,
    decreases n,
{
    if at < n - 1 {
        lemma_bad_chunk(text, at, n - 1);
    }
}

/// Appends the big-endian bytes of a number.
fn push_big_endian(bytes: &mut Vec<u8>, n: u32)
    ensures
        final(bytes)@ == old(bytes)@ + big_endian(n),
{
    bytes.push((n / 0x1000000) as u8);
    bytes.push((n / 0x10000 % 0x100) as u8);
    bytes.push((n / 0x100 % 0x100) as u8);
    bytes.push((n % 0x100) as u8);
    assert(bytes@ =~= old(bytes)@ + big_endian(n));
}

/// The text of one hexadecimal digit.
fn hex_digit_text(n: u8) -> (text: &'static str)
    requires
        n < 16,
    ensures
        text@ == seq![hex_digit(n as int)],
{
    proof {
        reveal_strlit("0");
        reveal_strlit("1");
        reveal_strlit("2");
        reveal_strlit("3");
        reveal_strlit("4");
        reveal_strlit("5");
        reveal_strlit("6");
        reveal_strlit("7");
        reveal_strlit("8");
        reveal_strlit("9");
        reveal_strlit("a");
        reveal_strlit("b");
        reveal_strlit("c");
        reveal_strlit("d");
        reveal_strlit("e");
        reveal_strlit("f");
    }
    if n == 0 {
        "0"
    } else if n == 1 {
        "1"
    } else if n == 2 {
        "2"
    } else if n == 3 {
        "3"
    } else if n == 4 {
        "4"
    } else if n == 5 {
        "5"
    } else if n == 6 {
        "6"
    } else if n == 7 {
        "7"
    } else if n == 8 {
        "8"
    } else if n == 9 {
        "9"
    } else if n == 10 {
        "a"
    } else if n == 11 {
        "b"
    } else if n == 12 {
        "c"
    } else if n == 13 {
        "d"
    } else if n == 14 {
        "e"
    } else {
        "f"
    }
}

/// Appends bytes `from` to `to` in hexadecimal.
fn append_hex(text: &mut String, bytes: &Vec<u8>, from: usize, to: usize)
    requires
        from <= to <= bytes@.len(),
    ensures
        final(text)@ == old(text)@ + hex_text(bytes@, from as int, to as int),
{
    let ghost start = text@;
    let mut i: usize = from;
    assert(start + hex_text(bytes@, from as int, from as int) =~= start);
    while i < to
        invariant
            from <= i <= to <= bytes@.len(),
            text@ == start + hex_text(bytes@, from as int, i as int),
        decreases to - i,
    {
        text.append(hex_digit_text(bytes[i] / 16));
        text.append(hex_digit_text(bytes[i] % 16));
        i += 1;
        assert(text@ =~= start + hex_text(bytes@, from as int, i as int));
    }
}

impl DeletionVectorDescriptor {
    /// The path, relative to the table, of a deletion vector file whose name is encoded as
    /// `<prefix><base-85 UUID>`.
    pub fn relative_path(&self) -> (path: DeltaResult<String>)
        ensures
            outcome(path) == relative_dv_path(self@.path_or_inline_dv),
    {
        let encoded = self.path_or_inline_dv.as_str();
        let length: usize = encoded.as_bytes().len();
        if length < 20 {
            let mut message = "Invalid length ".to_owned();
            message.append(unsigned_text(length as u64).as_str());
            message.append(", must be >= 20");
            return Err(Error::new(ErrorKind::DeletionVector, message));
        }
        let count: usize = encoded.unicode_len();
        if count < 20 {
            return Err(
                Error::new(ErrorKind::DeletionVector, "Failed to decode DV uuid".to_owned()),
            );
        }
        let prefix_len: usize = count - 20;
        let ghost tail = encoded@.skip(prefix_len as int);
        let mut uuid: Vec<u8> = Vec::new();
        let mut i: usize = 0;
        while i < 4
            invariant
                i <= 4,
                encoded@ == self@.path_or_inline_dv,
                vstd::utf8::encode_utf8(encoded@).len() >= 20,
                count == encoded@.len(),
                prefix_len + 20 == count,
                tail == encoded@.skip(prefix_len as int),
                base85_bytes(tail, i as int) == Some(uuid@),
                uuid@.len() == 4 * i,
            decreases 4 - i,
        {
            let chunk = decode_chunk(encoded, prefix_len + 5 * i);
            assert(tail.subrange(5 * i, 5 * (i + 1)) =~= encoded@.subrange(
                prefix_len + 5 * i,
                prefix_len + 5 * i + 5,
            ));
            match chunk {
                Some(n) => push_big_endian(&mut uuid, n),
                None => {
                    proof {
                        lemma_bad_chunk(tail, i as int, 4);
                    }
                    return Err(
                        Error::new(ErrorKind::DeletionVector, "Failed to decode DV uuid".to_owned()),
                    );
                },
            }
            i += 1;
        }
        let mut file = "deletion_vector_".to_owned();
        append_hex(&mut file, &uuid, 0, 4);
        file.append("-");
        append_hex(&mut file, &uuid, 4, 6);
        file.append("-");
        append_hex(&mut file, &uuid, 6, 8);
        file.append("-");
        append_hex(&mut file, &uuid, 8, 10);
        file.append("-");
        append_hex(&mut file, &uuid, 10, 16);
        file.append(".bin");
        assert(file@ =~= "deletion_vector_"@ + uuid_text(uuid@) + ".bin"@);
        if prefix_len == 0 {
            return Ok(file);
        }
        let mut path = encoded.substring_char(0, prefix_len).to_owned();
        assert(path@ =~= encoded@.take(prefix_len as int));
        path.append("/");
        path.append(file.as_str());
        Ok(path)
    }
}

/// Extracts what an entry of the tree holds from a deletion vector of the log.
///
/// A relative path is decoded from `<prefix><base-85 UUID>`; an absolute path is kept as it
/// is; an inline deletion vector is refused. The log counts only the bitmap in the size; the
/// tree counts the blob, which is eight bytes longer: a size prefix and a checksum.
pub fn extract_deletion_vector_content(dv: &DeletionVectorDescriptor) -> (info: DeltaResult<
    DeletionVectorInfo,
>)
    ensures
        outcome(info) == extracted_dv(dv@),
{
    let location = match dv.storage_type {
        DeletionVectorStorageType::PersistedAbsolute => dv.path_or_inline_dv.clone(),
        DeletionVectorStorageType::PersistedRelative => match dv.relative_path() {
            Ok(path) => path,
            Err(e) => {
                return Err(e);
            },
        },
        DeletionVectorStorageType::Inline => {
            return Err(
                Error::new(
                    ErrorKind::DeletionVector,
                    "Inline deletion vectors are not supported. They must be persisted first.".to_owned(),
                ),
            );
        },
    };
    Ok(
        DeletionVectorInfo {
            location,
            offset: match dv.offset {
                Some(offset) => offset as i64,
                None => 0,
            },
            size_in_bytes: dv.size_in_bytes as i64 + 8,
            cardinality: dv.cardinality,
        },
    )
}

} // verus!
