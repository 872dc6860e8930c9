//! The codec helpers that a generated script needs, as a set of bits, and the
//! helper snippets that such a set selects. Every codec has a bit of its
//! own, so that a set selects the helper of an integer only where an integer
//! of that width and signedness is used.

use crate::ast::{
    arena_resolved, functions_resolved, Function, FunctionResult, Int, NamedTypeList, Type, TypeDef,
    TypeDefArena, TypeDefId, TypeDefKind,
};
use crate::reach::{explore, functions_mention, reachable, type_mentions, Frontier};
use crate::repr::{flags_int, flags_repr};
use crate::serde_laws::{lemma_capabilities_by_type, lemma_helper_selected_where_needed};
use vstd::prelude::*;

verus! {

/// The table of the longest varint of each width.
pub const VARINT_MAX: u32 = 1 << 1;

/// The varint codec itself, without what it needs.
pub const VARINT_ONLY: u32 = 1 << 2;

/// The codec of `bool`.
pub const BOOL: u32 = 1 << 3;

/// An integer of 8 bits.
pub const BITS8: u32 = 1 << 4;

/// An integer of 16 bits.
pub const BITS16: u32 = 1 << 5;

/// An integer of 32 bits.
pub const BITS32: u32 = 1 << 6;

/// An integer of 64 bits.
pub const BITS64: u32 = 1 << 7;

/// An integer of 128 bits.
pub const BITS128: u32 = 1 << 8;

/// A signed integer.
pub const SIGNED: u32 = 1 << 9;

/// An unsigned integer.
pub const UNSIGNED: u32 = 1 << 10;

/// The codec of `float32`.
pub const F32: u32 = 1 << 12;

/// The codec of `float64`.
pub const F64: u32 = 1 << 13;

/// The codec of `char` itself, without what it needs.
pub const CHAR_ONLY: u32 = 1 << 14;

/// The codec of `string` itself, without what it needs.
pub const STRING_ONLY: u32 = 1 << 15;

/// The codec of `list<u8>` itself, without what it needs.
pub const BYTES_ONLY: u32 = 1 << 16;

/// The codec of `option` itself, without what it needs.
pub const OPTION_ONLY: u32 = 1 << 17;

/// The codec of `result` itself, without what it needs.
pub const RESULT_ONLY: u32 = 1 << 18;

/// The codec of `list` itself, without what it needs.
pub const LIST_ONLY: u32 = 1 << 19;

/// Something is read from the wire.
pub const DE: u32 = 1 << 20;

/// Something is written to the wire.
pub const SER: u32 = 1 << 21;

/// The text encoder and decoder.
pub const STR_UTIL: u32 = 1 << 22;

/// The codec of `u8` itself, without what it needs.
pub const U8_ONLY: u32 = 1 << 23;

/// The codec of `u16` itself, without what it needs.
pub const U16_ONLY: u32 = 1 << 24;

/// The codec of `u32` itself, without what it needs.
pub const U32_ONLY: u32 = 1 << 25;

/// The codec of `u64` itself, without what it needs.
pub const U64_ONLY: u32 = 1 << 26;

/// The codec of `u128` itself, without what it needs.
pub const U128_ONLY: u32 = 1 << 27;

/// The codec of `s8` itself, without what it needs.
pub const S8_ONLY: u32 = 1 << 28;

/// The codec of `s16` itself, without what it needs.
pub const S16_ONLY: u32 = 1 << 29;

/// The codec of `s32` itself, without what it needs.
pub const S32_ONLY: u32 = 1 << 30;

/// The codec of `s64` itself, without what it needs.
pub const S64_ONLY: u32 = 1 << 31;

/// The codec of `s128` itself, without what it needs.
pub const S128_ONLY: u32 = 1 << 11;

/// The varint codec with its table.
pub const VARINT: u32 = VARINT_ONLY | VARINT_MAX;

/// The codec of `u8` with what it needs: its width, its signedness and the
/// varint. The integers that follow are made in the same way.
pub const U8: u32 = U8_ONLY | BITS8 | VARINT | UNSIGNED;

/// The codec of `u16`.
pub const U16: u32 = U16_ONLY | BITS16 | VARINT | UNSIGNED;

/// The codec of `u32`, which also carries every tag.
pub const U32: u32 = U32_ONLY | BITS32 | VARINT | UNSIGNED;

/// The codec of `u64`, which also carries every length.
pub const U64: u32 = U64_ONLY | BITS64 | VARINT | UNSIGNED;

/// The codec of `u128`.
pub const U128: u32 = U128_ONLY | BITS128 | VARINT | UNSIGNED;

/// The codec of `s8`.
pub const S8: u32 = S8_ONLY | BITS8 | VARINT | SIGNED;

/// The codec of `s16`.
pub const S16: u32 = S16_ONLY | BITS16 | VARINT | SIGNED;

/// The codec of `s32`.
pub const S32: u32 = S32_ONLY | BITS32 | VARINT | SIGNED;

/// The codec of `s64`.
pub const S64: u32 = S64_ONLY | BITS64 | VARINT | SIGNED;

/// The codec of `s128`.
pub const S128: u32 = S128_ONLY | BITS128 | VARINT | SIGNED;

/// The codec of `char` with what it needs.
pub const CHAR: u32 = CHAR_ONLY | U64 | STR_UTIL;

/// The codec of `string` with what it needs.
pub const STRING: u32 = STRING_ONLY | U64 | STR_UTIL;

/// The codec of `list<u8>` with what it needs.
pub const BYTES: u32 = BYTES_ONLY | U64;

/// The codec of `option` with what it needs.
pub const OPTION: u32 = OPTION_ONLY | U32;

/// The codec of `result` with what it needs.
pub const RESULT: u32 = RESULT_ONLY | U32;

/// The codec of `list` with what it needs.
pub const LIST: u32 = LIST_ONLY | U64;

/// The snippet that declares the text decoder.
pub const TEXT_DECODER: &'static str = "const __text_decoder = new TextDecoder('utf-8');\n";

/// The snippet that declares the text encoder.
pub const TEXT_ENCODER: &'static str = "const __text_encoder = new TextEncoder();\n";

/// How many codecs there are for each direction.
pub const CODECS: usize = 20;

/// How many snippets are kept in files: the deserializer itself, the varint
/// table, and each codec once for each direction.
pub const SNIPPET_FILES: usize = 42;

/// Every bit of `mask` is set in `bits`.
pub open spec fn covers(bits: u32, mask: u32) -> bool {
    bits & mask == mask
}

/// A set of required codec helpers.
#[derive(Clone, Copy, Debug)]
pub struct SerdeUtils {
    pub bits: u32,
}

/// Whether bytes are read or written.
#[derive(Clone, Copy, Debug, PartialEq, Eq, Structural)]
pub enum Direction {
    De,
    Ser,
}

/// The kinds of value for which a helper exists in both directions, in the
/// order in which the helpers are emitted.
#[derive(Clone, Copy, Debug, PartialEq, Eq, Structural)]
pub enum Codec {
    Varint,
    Bool,
    U8,
    U16,
    U32,
    U64,
    U128,
    S8,
    S16,
    S32,
    S64,
    S128,
    F32,
    F64,
    Char,
    String,
    Bytes,
    Option,
    Result,
    List,
}

/// One piece of the text that a script starts with.
#[derive(Clone, Copy, Debug, PartialEq, Eq, Structural)]
pub enum Snippet {
    /// The class that reads from the bytes of a response. It is no helper
    /// for a kind of value: every script carries it, whatever it needs.
    Deserializer,
    /// The table of the longest varints.
    VarintMax,
    /// The codec of one kind of value in one direction.
    Codec(Direction, Codec),
    /// The text decoder or encoder.
    StrUtil(Direction),
}

impl Direction {
    pub open spec fn mask(self) -> u32 {
        match self {
            Direction::De => DE,
            Direction::Ser => SER,
        }
    }

    pub fn bit(&self) -> (m: u32)
        ensures
            m == self.mask(),
    {
        match self {
            Direction::De => DE,
            Direction::Ser => SER,
        }
    }
}

impl Codec {
    /// The bits that ask for this codec, the direction apart. The codec of
    /// an integer has a bit of its own: the bits of a width and of a
    /// signedness may come from two different integers.
    pub open spec fn mask(self) -> u32 {
        match self {
            Codec::Varint => VARINT,
            Codec::Bool => BOOL,
            Codec::U8 => U8_ONLY,
            Codec::U16 => U16_ONLY,
            Codec::U32 => U32_ONLY,
            Codec::U64 => U64_ONLY,
            Codec::U128 => U128_ONLY,
            Codec::S8 => S8_ONLY,
            Codec::S16 => S16_ONLY,
            Codec::S32 => S32_ONLY,
            Codec::S64 => S64_ONLY,
            Codec::S128 => S128_ONLY,
            Codec::F32 => F32,
            Codec::F64 => F64,
            Codec::Char => CHAR_ONLY,
            Codec::String => STRING_ONLY,
            Codec::Bytes => BYTES_ONLY,
            Codec::Option => OPTION_ONLY,
            Codec::Result => RESULT_ONLY,
            Codec::List => LIST_ONLY,
        }
    }

    /// The place of the bit that stands for this codec itself.
    pub open spec fn bit(self) -> u32 {
        match self {
            Codec::Varint => 2,
            Codec::Bool => 3,
            Codec::U8 => 23,
            Codec::U16 => 24,
            Codec::U32 => 25,
            Codec::U64 => 26,
            Codec::U128 => 27,
            Codec::S8 => 28,
            Codec::S16 => 29,
            Codec::S32 => 30,
            Codec::S64 => 31,
            Codec::S128 => 11,
            Codec::F32 => 12,
            Codec::F64 => 13,
            Codec::Char => 14,
            Codec::String => 15,
            Codec::Bytes => 16,
            Codec::Option => 17,
            Codec::Result => 18,
            Codec::List => 19,
        }
    }

    /// The bit that stands for this codec itself, without what it needs.
    pub open spec fn flag(self) -> u32 {
        1u32 << self.bit()
    }

    /// This codec does not work without the other: a codec needs itself;
    /// characters, strings, bytes and lists need the 64-bit unsigned integer
    /// for a length, options and results the 32-bit unsigned integer for a
    /// tag; and every integer needs the varint.
    pub open spec fn brings(self, other: Codec) -> bool {
        self == other || match self {
            Codec::Char | Codec::String | Codec::Bytes | Codec::List => other == Codec::U64 || other
                == Codec::Varint,
            Codec::Option | Codec::Result => other == Codec::U32 || other == Codec::Varint,
            Codec::U8 | Codec::U16 | Codec::U32 | Codec::U64 | Codec::U128 | Codec::S8 | Codec::S16
            | Codec::S32 | Codec::S64 | Codec::S128 => other == Codec::Varint,
            Codec::Varint | Codec::Bool | Codec::F32 | Codec::F64 => false,
        }
    }

    /// The bits of this codec with what it needs.
    pub open spec fn word(self) -> u32 {
        match self {
            Codec::Varint => VARINT,
            Codec::Bool => BOOL,
            Codec::U8 => U8,
            Codec::U16 => U16,
            Codec::U32 => U32,
            Codec::U64 => U64,
            Codec::U128 => U128,
            Codec::S8 => S8,
            Codec::S16 => S16,
            Codec::S32 => S32,
            Codec::S64 => S64,
            Codec::S128 => S128,
            Codec::F32 => F32,
            Codec::F64 => F64,
            Codec::Char => CHAR,
            Codec::String => STRING,
            Codec::Bytes => BYTES,
            Codec::Option => OPTION,
            Codec::Result => RESULT,
            Codec::List => LIST,
        }
    }

    /// The place of this codec in the order of emission.
    pub open spec fn ordinal(self) -> nat {
        match self {
            Codec::Varint => 0,
            Codec::Bool => 1,
            Codec::U8 => 2,
            Codec::U16 => 3,
            Codec::U32 => 4,
            Codec::U64 => 5,
            Codec::U128 => 6,
            Codec::S8 => 7,
            Codec::S16 => 8,
            Codec::S32 => 9,
            Codec::S64 => 10,
            Codec::S128 => 11,
            Codec::F32 => 12,
            Codec::F64 => 13,
            Codec::Char => 14,
            Codec::String => 15,
            Codec::Bytes => 16,
            Codec::Option => 17,
            Codec::Result => 18,
            Codec::List => 19,
        }
    }

    /// The codecs in the order of emission.
    pub open spec fn all() -> Seq<Codec> {
        seq![
            Codec::Varint,
            Codec::Bool,
            Codec::U8,
            Codec::U16,
            Codec::U32,
            Codec::U64,
            Codec::U128,
            Codec::S8,
            Codec::S16,
            Codec::S32,
            Codec::S64,
            Codec::S128,
            Codec::F32,
            Codec::F64,
            Codec::Char,
            Codec::String,
            Codec::Bytes,
            Codec::Option,
            Codec::Result,
            Codec::List,
        ]
    }

    /// The name of this codec in the names of the snippet files.
    pub open spec fn stem(self) -> Seq<char> {
        match self {
            Codec::Varint => "varint"@,
            Codec::Bool => "bool"@,
            Codec::U8 => "u8"@,
            Codec::U16 => "u16"@,
            Codec::U32 => "u32"@,
            Codec::U64 => "u64"@,
            Codec::U128 => "u128"@,
            Codec::S8 => "s8"@,
            Codec::S16 => "s16"@,
            Codec::S32 => "s32"@,
            Codec::S64 => "s64"@,
            Codec::S128 => "s128"@,
            Codec::F32 => "f32"@,
            Codec::F64 => "f64"@,
            Codec::Char => "char"@,
            Codec::String => "string"@,
            Codec::Bytes => "bytes"@,
            Codec::Option => "option"@,
            Codec::Result => "result"@,
            Codec::List => "list"@,
        }
    }

    /// The bits that ask for this codec, the direction apart.
    pub fn bits(&self) -> (m: u32)
        ensures
            m == self.mask(),
    {
        match self {
            Codec::Varint => VARINT,
            Codec::Bool => BOOL,
            Codec::U8 => U8_ONLY,
            Codec::U16 => U16_ONLY,
            Codec::U32 => U32_ONLY,
            Codec::U64 => U64_ONLY,
            Codec::U128 => U128_ONLY,
            Codec::S8 => S8_ONLY,
            Codec::S16 => S16_ONLY,
            Codec::S32 => S32_ONLY,
            Codec::S64 => S64_ONLY,
            Codec::S128 => S128_ONLY,
            Codec::F32 => F32,
            Codec::F64 => F64,
            Codec::Char => CHAR_ONLY,
            Codec::String => STRING_ONLY,
            Codec::Bytes => BYTES_ONLY,
            Codec::Option => OPTION_ONLY,
            Codec::Result => RESULT_ONLY,
            Codec::List => LIST_ONLY,
        }
    }

    pub fn index(&self) -> (i: usize)
        ensures
            i == self.ordinal(),
            i < CODECS,
            Codec::all()[i as int] == *self,
    {
        match self {
            Codec::Varint => 0,
            Codec::Bool => 1,
            Codec::U8 => 2,
            Codec::U16 => 3,
            Codec::U32 => 4,
            Codec::U64 => 5,
            Codec::U128 => 6,
            Codec::S8 => 7,
            Codec::S16 => 8,
            Codec::S32 => 9,
            Codec::S64 => 10,
            Codec::S128 => 11,
            Codec::F32 => 12,
            Codec::F64 => 13,
            Codec::Char => 14,
            Codec::String => 15,
            Codec::Bytes => 16,
            Codec::Option => 17,
            Codec::Result => 18,
            Codec::List => 19,
        }
    }

    /// The codecs in the order of emission.
    pub fn list() -> (v: Vec<Codec>)
        ensures
            v@ == Codec::all(),
            v.len() == CODECS,
    {
        let v = vec![
            Codec::Varint,
            Codec::Bool,
            Codec::U8,
            Codec::U16,
            Codec::U32,
            Codec::U64,
            Codec::U128,
            Codec::S8,
            Codec::S16,
            Codec::S32,
            Codec::S64,
            Codec::S128,
            Codec::F32,
            Codec::F64,
            Codec::Char,
            Codec::String,
            Codec::Bytes,
            Codec::Option,
            Codec::Result,
            Codec::List,
        ];
        assert(v@ =~= Codec::all());
        v
    }

    pub fn file_stem(&self) -> (s: &'static str)
        ensures
            s@ == self.stem(),
    {
        match self {
            Codec::Varint => "varint",
            Codec::Bool => "bool",
            Codec::U8 => "u8",
            Codec::U16 => "u16",
            Codec::U32 => "u32",
            Codec::U64 => "u64",
            Codec::U128 => "u128",
            Codec::S8 => "s8",
            Codec::S16 => "s16",
            Codec::S32 => "s32",
            Codec::S64 => "s64",
            Codec::S128 => "s128",
            Codec::F32 => "f32",
            Codec::F64 => "f64",
            Codec::Char => "char",
            Codec::String => "string",
            Codec::Bytes => "bytes",
            Codec::Option => "option",
            Codec::Result => "result",
            Codec::List => "list",
        }
    }
}

impl Snippet {
    /// The bits that ask for this snippet: none for the reader class.
    pub open spec fn mask(self) -> u32 {
        match self {
            Snippet::Deserializer => 0,
            Snippet::VarintMax => VARINT_MAX,
            Snippet::Codec(direction, codec) => codec.mask() | direction.mask(),
            Snippet::StrUtil(direction) => STR_UTIL | direction.mask(),
        }
    }

    /// The codec helpers of one direction, in the order of emission.
    pub open spec fn codecs(direction: Direction) -> Seq<Snippet> {
        Seq::new(CODECS as nat, |i: int| Snippet::Codec(direction, Codec::all()[i]))
    }

    /// Every snippet, in the order of emission: the reader class, the varint
    /// table, the readers, the writers, then the text utilities.
    pub open spec fn all() -> Seq<Snippet> {
        seq![Snippet::Deserializer, Snippet::VarintMax] + Snippet::codecs(Direction::De)
            + Snippet::codecs(Direction::Ser) + seq![
            Snippet::StrUtil(Direction::De),
            Snippet::StrUtil(Direction::Ser),
        ]
    }

    /// The place of a snippet among the snippet files; the text
    /// utilities are kept in no file.
    pub open spec fn file_index(self) -> Option<nat> {
        match self {
            Snippet::Deserializer => Some(0nat),
            Snippet::VarintMax => Some(1nat),
            Snippet::Codec(Direction::De, codec) => Some(2 + codec.ordinal()),
            Snippet::Codec(Direction::Ser, codec) => Some(2 + CODECS as nat + codec.ordinal()),
            Snippet::StrUtil(_) => None,
        }
    }

    /// The name of the file that holds a snippet.
    pub open spec fn file_name_text(self) -> Option<Seq<char>> {
        match self {
            Snippet::Deserializer => Some("deserializer.js"@),
            Snippet::VarintMax => Some("varint_max.js"@),
            Snippet::Codec(Direction::De, codec) => Some("de_"@ + codec.stem() + ".js"@),
            Snippet::Codec(Direction::Ser, codec) => Some("ser_"@ + codec.stem() + ".js"@),
            Snippet::StrUtil(_) => None,
        }
    }

    pub fn bits(&self) -> (m: u32)
        ensures
            m == self.mask(),
    {
        match self {
            Snippet::Deserializer => 0,
            Snippet::VarintMax => VARINT_MAX,
            Snippet::Codec(direction, codec) => codec.bits() | direction.bit(),
            Snippet::StrUtil(direction) => STR_UTIL | direction.bit(),
        }
    }

    /// The name of the file that holds this snippet, if a file does.
    pub fn file_name(&self) -> (name: Option<String>)
        ensures
            name is Some == self.file_name_text() is Some,
            name matches Some(n) ==> n@ == self.file_name_text()->0,
    {
        match self {
            Snippet::Deserializer => Some(String::from_str("deserializer.js")),
            Snippet::VarintMax => Some(String::from_str("varint_max.js")),
            Snippet::Codec(direction, codec) => {
                let mut name = match direction {
                    Direction::De => String::from_str("de_"),
                    Direction::Ser => String::from_str("ser_"),
                };
                name.append(codec.file_stem());
                name.append(".js");
                Some(name)
            },
            Snippet::StrUtil(_) => None,
        }
    }

    /// Every snippet, in the order of emission.
    pub fn list() -> (v: Vec<Snippet>)
        ensures
            v@ == Snippet::all(),
    {
        let codecs = Codec::list();
        let mut v: Vec<Snippet> = Vec::new();
        v.push(Snippet::Deserializer);
        v.push(Snippet::VarintMax);
        let mut i: usize = 0;
        while i < CODECS
            invariant
                i <= CODECS,
                codecs@ == Codec::all(),
                v@ == seq![Snippet::Deserializer, Snippet::VarintMax] + Snippet::codecs(
                    Direction::De,
                ).take(i as int),
            decreases CODECS - i,
        {
            v.push(Snippet::Codec(Direction::De, codecs[i]));
            i += 1;
        }
        assert(Snippet::codecs(Direction::De).take(CODECS as int) == Snippet::codecs(Direction::De));
        let mut i: usize = 0;
        while i < CODECS
            invariant
                i <= CODECS,
                codecs@ == Codec::all(),
                v@ == seq![Snippet::Deserializer, Snippet::VarintMax] + Snippet::codecs(Direction::De)
                    + Snippet::codecs(Direction::Ser).take(i as int),
            decreases CODECS - i,
        {
            v.push(Snippet::Codec(Direction::Ser, codecs[i]));
            i += 1;
        }
        assert(Snippet::codecs(Direction::Ser).take(CODECS as int) == Snippet::codecs(
            Direction::Ser,
        ));
        v.push(Snippet::StrUtil(Direction::De));
        v.push(Snippet::StrUtil(Direction::Ser));
        v
    }
}

/// The texts of the snippets that are kept in files.
pub struct SnippetLibrary {
    files: Vec<String>,
}

impl SnippetLibrary {
    /// The texts of the snippet files, in the order of emission.
    pub closed spec fn files(self) -> Seq<Seq<char>> {
        Seq::new(self.files.len() as nat, |i: int| self.files[i]@)
    }

    #[verifier::type_invariant]
    spec fn complete(self) -> bool {
        self.files.len() == SNIPPET_FILES
    }

    /// The text of a snippet.
    pub open spec fn text(self, snippet: Snippet) -> Seq<char> {
        match snippet {
            Snippet::StrUtil(Direction::De) => TEXT_DECODER@,
            Snippet::StrUtil(Direction::Ser) => TEXT_ENCODER@,
            _ => self.files()[snippet.file_index()->0 as int],
        }
    }

    /// A library of the given texts, which are those of the snippet files in
    /// the order of emission; `None` unless there is one text for each file.
    pub fn new(files: Vec<String>) -> (library: Option<SnippetLibrary>)
        ensures
            library is Some <==> files.len() == SNIPPET_FILES,
            library matches Some(l) ==> l.files() == crate::text::views(files@),
    {
        if files.len() == SNIPPET_FILES {
            let library = SnippetLibrary { files };
            assert(library.files() =~= crate::text::views(files@));
            Some(library)
        } else {
            None
        }
    }

    /// The text of a snippet.
    pub fn snippet(&self, snippet: Snippet) -> (s: &str)
        ensures
            s@ == self.text(snippet),
    {
        proof {
            use_type_invariant(self);
        }
        match snippet {
            Snippet::Deserializer => self.files[0].as_str(),
            Snippet::VarintMax => self.files[1].as_str(),
            Snippet::Codec(Direction::De, codec) => self.files[2 + codec.index()].as_str(),
            Snippet::Codec(Direction::Ser, codec) => self.files[2 + CODECS + codec.index()].as_str(),
            Snippet::StrUtil(Direction::De) => TEXT_DECODER,
            Snippet::StrUtil(Direction::Ser) => TEXT_ENCODER,
        }
    }
}

impl SerdeUtils {
    /// Every bit of `other` is in this set.
    pub open spec fn has(self, other: SerdeUtils) -> bool {
        covers(self.bits, other.bits)
    }

    /// The snippets that this set selects, in the order of emission: the
    /// reader class, and the helpers that the set asks for.
    pub open spec fn selected(self) -> Seq<Snippet> {
        Snippet::all().filter(|s: Snippet| covers(self.bits, s.mask()))
    }

    /// What a script for this set starts with: the selected snippets, one
    /// after another.
    pub open spec fn prelude(self, library: SnippetLibrary) -> Seq<char> {
        crate::text::concat(self.selected().map_values(|s: Snippet| library.text(s)))
    }

    /// The set without any helper.
    pub fn empty() -> (s: SerdeUtils)
        ensures
            s.bits == 0,
    {
        SerdeUtils { bits: 0 }
    }

    /// The set with exactly the given bits.
    pub fn from_bits(bits: u32) -> (s: SerdeUtils)
        ensures
            s.bits == bits,
    {
        SerdeUtils { bits }
    }

    /// The bits of the set.
    pub fn bits(&self) -> (bits: u32)
        ensures
            bits == self.bits,
    {
        self.bits
    }

    /// Tells whether the set asks for nothing.
    pub fn is_empty(&self) -> (b: bool)
        ensures
            b == (self.bits == 0),
    {
        self.bits == 0
    }

    /// Tells whether every bit of `other` is in this set.
    pub fn contains(&self, other: SerdeUtils) -> (b: bool)
        ensures
            b == self.has(other),
    {
        self.bits & other.bits == other.bits
    }

    /// What both sets ask for together.
    pub fn union(self, other: SerdeUtils) -> (s: SerdeUtils)
        ensures
            s.bits == self.bits | other.bits,
    {
        SerdeUtils { bits: self.bits | other.bits }
    }

    /// Adds what `other` asks for.
    pub fn insert(&mut self, other: SerdeUtils)
        ensures
            final(self).bits == old(self).bits | other.bits,
    {
        self.bits = self.bits | other.bits;
    }

    /// The snippets that a script with these needs has to carry, in the
    /// order of emission: the reader class, and no helper but those that the
    /// set asks for.
    pub fn snippets(&self) -> (selected: Vec<Snippet>)
        ensures
            selected@ == self.selected(),
    {
        let all = Snippet::list();
        let mut selected: Vec<Snippet> = Vec::new();
        let ghost wanted = |s: Snippet| covers(self.bits, s.mask());
        let mut i: usize = 0;
        while i < all.len()
            invariant
                i <= all.len(),
                all@ == Snippet::all(),
                wanted == (|s: Snippet| covers(self.bits, s.mask())),
                selected@ == all@.take(i as int).filter(wanted),
            decreases all.len() - i,
        {
            proof {
                reveal(Seq::filter);
                assert(all@.take(i + 1).drop_last() == all@.take(i as int));
            }
            let snippet = all[i];
            if self.bits & snippet.bits() == snippet.bits() {
                selected.push(snippet);
            }
            i += 1;
        }
        assert(all@.take(all.len() as int) == all@);
        selected
    }

    /// What a script with these needs starts with: the text of the reader
    /// class, then the text of each helper that the set asks for, in the
    /// order of emission.
    pub fn render(&self, library: &SnippetLibrary) -> (out: String)
        ensures
            out@ == self.prelude(*library),
    {
        let selected = self.snippets();
        let mut out = String::new();
        let ghost texts = selected@.map_values(|s: Snippet| library.text(s));
        let mut i: usize = 0;
        while i < selected.len()
            invariant
                i <= selected.len(),
                texts == selected@.map_values(|s: Snippet| library.text(s)),
                out@ == crate::text::concat(texts.take(i as int)),
            decreases selected.len() - i,
        {
            proof {
                assert(texts.take(i + 1).drop_last() == texts.take(i as int));
            }
            out.append(library.snippet(selected[i]));
            i += 1;
        }
        assert(texts.take(selected.len() as int) == texts);
        out
    }
}

/// The bits of all the sets of `bits` together.
pub open spec fn or_all(bits: Seq<u32>) -> u32
    decreases bits.len(),
{
    if bits.len() == 0 {
        0
    } else {
        or_all(bits.drop_last()) | bits.last()
    }
}

/// What a value of the type needs by itself. A named type counts for nothing
/// here: what it needs is the matter of its definition.
pub open spec fn type_bits(ty: Type) -> u32
    decreases ty,
{
    match ty {
        Type::Bool => BOOL,
        Type::U8 => U8,
        Type::U16 => U16,
        Type::U32 => U32,
        Type::U64 => U64,
        Type::U128 => U128,
        Type::S8 => S8,
        Type::S16 => S16,
        Type::S32 => S32,
        Type::S64 => S64,
        Type::S128 => S128,
        Type::Float32 => F32,
        Type::Float64 => F64,
        Type::Char => CHAR,
        Type::String => STRING,
        Type::Tuple(tys) => or_all(types_bits(tys)),
        Type::List(inner) => if *inner == Type::U8 {
            BYTES
        } else {
            LIST | type_bits(*inner)
        },
        Type::Option(inner) => OPTION | type_bits(*inner),
        Type::Result { ok, err } => RESULT | (match ok {
            Some(t) => type_bits(*t),
            None => 0,
        }) | (match err {
            Some(t) => type_bits(*t),
            None => 0,
        }),
        Type::Id(_) => 0,
    }
}

/// The codec of a type itself, what it holds apart: a list of `u8` travels
/// as bytes, a tuple has no codec of its own, and a named type has the one
/// of its definition.
pub open spec fn own_codec(ty: Type) -> Option<Codec> {
    match ty {
        Type::Bool => Some(Codec::Bool),
        Type::U8 => Some(Codec::U8),
        Type::U16 => Some(Codec::U16),
        Type::U32 => Some(Codec::U32),
        Type::U64 => Some(Codec::U64),
        Type::U128 => Some(Codec::U128),
        Type::S8 => Some(Codec::S8),
        Type::S16 => Some(Codec::S16),
        Type::S32 => Some(Codec::S32),
        Type::S64 => Some(Codec::S64),
        Type::S128 => Some(Codec::S128),
        Type::Float32 => Some(Codec::F32),
        Type::Float64 => Some(Codec::F64),
        Type::Char => Some(Codec::Char),
        Type::String => Some(Codec::String),
        Type::List(inner) => if *inner == Type::U8 {
            Some(Codec::Bytes)
        } else {
            Some(Codec::List)
        },
        Type::Option(_) => Some(Codec::Option),
        Type::Result { .. } => Some(Codec::Result),
        Type::Tuple(_) => None,
        Type::Id(_) => None,
    }
}

/// A value of the type is read or written with the codec: the type has a
/// codec that does not work without it, or holds a type of which that is
/// so. A named type counts for nothing here.
pub open spec fn type_uses(ty: Type, codec: Codec) -> bool
    decreases ty,
{
    ||| own_codec(ty) matches Some(own) && own.brings(codec)
    ||| match ty {
        Type::List(inner) => *inner != Type::U8 && type_uses(*inner, codec),
        Type::Option(inner) => type_uses(*inner, codec),
        Type::Result { ok, err } => {
            ||| ok matches Some(t) && type_uses(*t, codec)
            ||| err matches Some(t) && type_uses(*t, codec)
        },
        Type::Tuple(tys) => types_use(tys, codec),
        _ => false,
    }
}

/// One of the types of a tuple uses the codec: see [`type_uses`].
pub open spec fn types_use(tys: Vec<Type>, codec: Codec) -> bool
    decreases tys,
{
    exists|i: int| 0 <= i < tys.len() && type_uses(#[trigger] tys[i], codec)
}

/// The codec of the integer behind a set of flags.
pub open spec fn int_codec(repr: Int) -> Codec {
    match repr {
        Int::U8 => Codec::U8,
        Int::U16 => Codec::U16,
        Int::U32 => Codec::U32,
        Int::U64 => Codec::U64,
        Int::U128 => Codec::U128,
    }
}

/// A value of a defined type is read or written with the codec, the named
/// types in its body apart: a type in the body uses it, or the tag of a
/// variant, a union, an enum or a resource does, or the integer behind a set
/// of flags.
pub open spec fn kind_uses(kind: TypeDefKind, codec: Codec) -> bool {
    match kind {
        TypeDefKind::Alias(ty) => type_uses(ty, codec),
        TypeDefKind::Record(fields) => exists|i: int|
            0 <= i < fields.len() && type_uses((#[trigger] fields[i]).ty, codec),
        TypeDefKind::Variant(cases) => Codec::U32.brings(codec) || exists|i: int|
            0 <= i < cases.len() && ((#[trigger] cases[i]).ty matches Some(ty) && type_uses(
                ty,
                codec,
            )),
        TypeDefKind::Union(cases) => Codec::U32.brings(codec) || exists|i: int|
            0 <= i < cases.len() && type_uses((#[trigger] cases[i]).ty, codec),
        TypeDefKind::Enum(_) => Codec::U32.brings(codec),
        TypeDefKind::Resource(_) => Codec::U32.brings(codec),
        TypeDefKind::Flags(fields) => int_codec(flags_int(fields.len() as nat)).brings(codec),
    }
}

/// A value that travels in one direction is read or written with the
/// codec: one of the types of the list uses it.
pub open spec fn named_types_use(types: Seq<(String, Type)>, codec: Codec) -> bool {
    exists|i: int| 0 <= i < types.len() && type_uses((#[trigger] types[i]).1, codec)
}

/// The signature of the function uses the codec: a parameter or a result
/// does.
pub open spec fn function_uses(function: Function, codec: Codec) -> bool {
    ||| named_types_use(function.params@, codec)
    ||| function.result matches Some(FunctionResult::Anon(ty)) && type_uses(ty, codec)
    ||| function.result matches Some(FunctionResult::Named(types)) && named_types_use(types@, codec)
}

/// A script that calls the functions uses the codec: the signature of one
/// of the functions does, or a type definition that the signatures lead to.
pub open spec fn needed(typedefs: Seq<TypeDef>, functions: Seq<Function>, codec: Codec) -> bool {
    ||| exists|i: int| 0 <= i < functions.len() && function_uses(#[trigger] functions[i], codec)
    ||| exists|id: nat|
        id < typedefs.len() && #[trigger] reachable(typedefs, signature_roots(functions), id)
            && kind_uses(typedefs[id as int].kind, codec)
}

/// Something travels in the direction: a function has a parameter, which
/// is written, or a result, which is read.
pub open spec fn travels(functions: Seq<Function>, direction: Direction) -> bool {
    match direction {
        Direction::Ser => exists|i: int|
            0 <= i < functions.len() && (#[trigger] functions[i]).params.len() > 0,
        Direction::De => exists|i: int|
            0 <= i < functions.len() && ((#[trigger] functions[i]).result matches Some(r)
                && r.spec_len() > 0),
    }
}

/// What each type of a tuple needs by itself.
pub open spec fn types_bits(tys: Vec<Type>) -> Seq<u32>
    decreases tys,
{
    Seq::new(
        tys.len() as nat,
        |i: int|
            if 0 <= i < tys.len() {
                type_bits(tys[i])
            } else {
                0
            },
    )
}

/// What the integer behind a set of flags needs.
pub open spec fn int_bits(repr: Int) -> u32 {
    match repr {
        Int::U8 => U8,
        Int::U16 => U16,
        Int::U32 => U32,
        Int::U64 => U64,
        Int::U128 => U128,
    }
}

/// What a value of a defined type needs by itself, the named types in its
/// body apart.
pub open spec fn kind_bits(kind: TypeDefKind) -> u32 {
    match kind {
        TypeDefKind::Alias(ty) => type_bits(ty),
        TypeDefKind::Record(fields) => or_all(fields@.map_values(|f: crate::ast::RecordField| type_bits(f.ty))),
        TypeDefKind::Variant(cases) => U32 | or_all(
            cases@.map_values(
                |c: crate::ast::VariantCase|
                    match c.ty {
                        Some(ty) => type_bits(ty),
                        None => 0,
                    },
            ),
        ),
        TypeDefKind::Union(cases) => U32 | or_all(cases@.map_values(|c: crate::ast::UnionCase| type_bits(c.ty))),
        TypeDefKind::Enum(_) => U32,
        TypeDefKind::Resource(_) => U32,
        TypeDefKind::Flags(fields) => int_bits(flags_int(fields.len() as nat)),
    }
}

/// What the first `n` definitions of the arena need, those left out that
/// cannot be reached from the roots.
pub open spec fn reached_bits(typedefs: Seq<TypeDef>, roots: Set<nat>, n: nat) -> u32
    decreases n,
{
    if n == 0 {
        0
    } else {
        reached_bits(typedefs, roots, (n - 1) as nat) | if reachable(typedefs, roots, (n - 1) as nat) {
            kind_bits(typedefs[n - 1].kind)
        } else {
            0
        }
    }
}

/// What the values of a list need that travel in one direction: for each,
/// the direction and what its type needs by itself.
pub open spec fn named_types_bits(types: Seq<(String, Type)>, direction: u32) -> u32 {
    or_all(types.map_values(|t: (String, Type)| direction | type_bits(t.1)))
}

/// What the signature of a function needs: its parameters are written, its
/// results are read.
pub open spec fn function_bits(function: Function) -> u32 {
    named_types_bits(function.params@, SER) | match function.result {
        Some(FunctionResult::Anon(ty)) => DE | type_bits(ty),
        Some(FunctionResult::Named(types)) => named_types_bits(types@, DE),
        None => 0,
    }
}

/// What the signatures of the functions need.
pub open spec fn functions_bits(functions: Seq<Function>) -> u32 {
    or_all(functions.map_values(|f: Function| function_bits(f)))
}

/// The definitions that the signatures of the functions mention.
pub open spec fn signature_roots(functions: Seq<Function>) -> Set<nat> {
    Set::new(|id: nat| functions_mention(functions, id))
}

/// The definitions that a type mentions.
pub open spec fn type_roots(ty: Type) -> Set<nat> {
    Set::new(|id: nat| type_mentions(ty, id))
}

/// What a script needs that calls the functions: what their signatures need,
/// and what every definition needs that can be reached from them.
pub open spec fn capabilities(typedefs: Seq<TypeDef>, functions: Seq<Function>) -> u32 {
    functions_bits(functions) | reached_bits(typedefs, signature_roots(functions), typedefs.len())
}

/// What a value of the type needs, with all that can be reached from it.
pub open spec fn type_capabilities(typedefs: Seq<TypeDef>, ty: Type) -> u32 {
    type_bits(ty) | reached_bits(typedefs, type_roots(ty), typedefs.len())
}

/// What the values of a list need that travel in one direction: for each,
/// the direction and what its type needs with all that can be reached from
/// it.
pub open spec fn named_types_capabilities(
    typedefs: Seq<TypeDef>,
    types: Seq<(String, Type)>,
    direction: u32,
) -> u32 {
    or_all(types.map_values(|t: (String, Type)| direction | type_capabilities(typedefs, t.1)))
}

/// What a script needs that calls one function: for each parameter that
/// something is written, for each result that something is read, and what
/// the type of each needs with all that can be reached from it.
pub open spec fn function_capabilities(typedefs: Seq<TypeDef>, function: Function) -> u32 {
    named_types_capabilities(typedefs, function.params@, SER) | match function.result {
        Some(FunctionResult::Anon(ty)) => DE | type_capabilities(typedefs, ty),
        Some(FunctionResult::Named(types)) => named_types_capabilities(typedefs, types@, DE),
        None => 0,
    }
}

/// What a value of the defined type needs, with all that can be reached from
/// it.
pub open spec fn typedef_capabilities(typedefs: Seq<TypeDef>, id: nat) -> u32 {
    reached_bits(typedefs, set![id], typedefs.len())
}

/// What a value of the type needs by itself: see [`type_bits`].
pub fn own_type_info(ty: &Type) -> (bits: u32)
    ensures
        bits == type_bits(*ty),
    decreases ty,
{
    match ty {
        Type::Bool => BOOL,
        Type::U8 => U8,
        Type::U16 => U16,
        Type::U32 => U32,
        Type::U64 => U64,
        Type::U128 => U128,
        Type::S8 => S8,
        Type::S16 => S16,
        Type::S32 => S32,
        Type::S64 => S64,
        Type::S128 => S128,
        Type::Float32 => F32,
        Type::Float64 => F64,
        Type::Char => CHAR,
        Type::String => STRING,
        Type::Tuple(tys) => {
            let ghost parts = types_bits(*tys);
            let mut bits: u32 = 0;
            let mut i: usize = 0;
            while i < tys.len()
                invariant
                    i <= tys.len(),
                    *ty is Tuple,
                    ty->Tuple_0 == *tys,
                    parts.len() == tys.len(),
                    forall|k: int| 0 <= k < tys.len() ==> parts[k] == type_bits(tys[k]),
                    bits == or_all(parts.take(i as int)),
                decreases tys.len() - i,
            {
                proof {
                    assert(parts.take(i + 1).drop_last() == parts.take(i as int));
                }
                bits = bits | own_type_info(&tys[i]);
                i += 1;
            }
            assert(parts.take(tys.len() as int) == parts);
            bits
        },
        Type::List(inner) => match **inner {
            Type::U8 => BYTES,
            _ => LIST | own_type_info(inner),
        },
        Type::Option(inner) => OPTION | own_type_info(inner),
        Type::Result { ok, err } => {
            let ok_bits = match ok {
                Some(t) => own_type_info(t),
                None => 0,
            };
            let err_bits = match err {
                Some(t) => own_type_info(t),
                None => 0,
            };
            RESULT | ok_bits | err_bits
        },
        Type::Id(_) => 0,
    }
}

fn named_types_info(types: &NamedTypeList, direction: u32) -> (bits: u32)
    ensures
        bits == named_types_bits(types@, direction),
{
    let ghost parts = types@.map_values(|t: (String, Type)| direction | type_bits(t.1));
    let mut bits: u32 = 0;
    let mut i: usize = 0;
    while i < types.len()
        invariant
            i <= types.len(),
            parts == types@.map_values(|t: (String, Type)| direction | type_bits(t.1)),
            bits == or_all(parts.take(i as int)),
        decreases types.len() - i,
    {
        proof {
            assert(parts.take(i + 1).drop_last() == parts.take(i as int));
        }
        bits = bits | (direction | own_type_info(&types[i].1));
        i += 1;
    }
    assert(parts.take(types.len() as int) == parts);
    bits
}

fn function_info(function: &Function) -> (bits: u32)
    ensures
        bits == function_bits(*function),
{
    let params = named_types_info(&function.params, SER);
    let results = match &function.result {
        Some(FunctionResult::Anon(ty)) => DE | own_type_info(ty),
        Some(FunctionResult::Named(types)) => named_types_info(types, DE),
        None => 0,
    };
    params | results
}

fn functions_info(functions: &[Function]) -> (bits: u32)
    ensures
        bits == functions_bits(functions@),
{
    let ghost parts = functions@.map_values(|f: Function| function_bits(f));
    let mut bits: u32 = 0;
    let mut i: usize = 0;
    while i < functions.len()
        invariant
            i <= functions.len(),
            parts == functions@.map_values(|f: Function| function_bits(f)),
            bits == or_all(parts.take(i as int)),
        decreases functions.len() - i,
    {
        proof {
            assert(parts.take(i + 1).drop_last() == parts.take(i as int));
        }
        bits = bits | function_info(&functions[i]);
        i += 1;
    }
    assert(parts.take(functions.len() as int) == parts);
    bits
}

/// What a value of a defined type needs by itself: see [`kind_bits`].
#[verifier::loop_isolation(false)]
pub fn own_typedef_info(kind: &TypeDefKind) -> (bits: u32)
    requires
        kind matches TypeDefKind::Flags(fields) ==> fields.len() <= crate::ast::MAX_FLAGS,
    ensures
        bits == kind_bits(*kind),
{
    match kind {
        TypeDefKind::Alias(ty) => own_type_info(ty),
        TypeDefKind::Record(fields) => {
            let ghost parts = fields@.map_values(|f: crate::ast::RecordField| type_bits(f.ty));
            let mut bits: u32 = 0;
            let mut i: usize = 0;
            while i < fields.len()
                invariant
                    i <= fields.len(),
                    bits == or_all(parts.take(i as int)),
                decreases fields.len() - i,
            {
                proof {
                    assert(parts.take(i + 1).drop_last() == parts.take(i as int));
                }
                bits = bits | own_type_info(&fields[i].ty);
                i += 1;
            }
            assert(parts.take(fields.len() as int) == parts);
            bits
        },
        TypeDefKind::Variant(cases) => {
            let ghost parts = cases@.map_values(
                |c: crate::ast::VariantCase|
                    match c.ty {
                        Some(ty) => type_bits(ty),
                        None => 0,
                    },
            );
            let mut bits: u32 = 0;
            let mut i: usize = 0;
            while i < cases.len()
                invariant
                    i <= cases.len(),
                    bits == or_all(parts.take(i as int)),
                decreases cases.len() - i,
            {
                proof {
                    assert(parts.take(i + 1).drop_last() == parts.take(i as int));
                }
                let case_bits = match &cases[i].ty {
                    Some(ty) => own_type_info(ty),
                    None => 0,
                };
                bits = bits | case_bits;
                i += 1;
            }
            assert(parts.take(cases.len() as int) == parts);
            U32 | bits
        },
        TypeDefKind::Union(cases) => {
            let ghost parts = cases@.map_values(|c: crate::ast::UnionCase| type_bits(c.ty));
            let mut bits: u32 = 0;
            let mut i: usize = 0;
            while i < cases.len()
                invariant
                    i <= cases.len(),
                    bits == or_all(parts.take(i as int)),
                decreases cases.len() - i,
            {
                proof {
                    assert(parts.take(i + 1).drop_last() == parts.take(i as int));
                }
                bits = bits | own_type_info(&cases[i].ty);
                i += 1;
            }
            assert(parts.take(cases.len() as int) == parts);
            U32 | bits
        },
        TypeDefKind::Enum(_) => U32,
        TypeDefKind::Resource(_) => U32,
        TypeDefKind::Flags(fields) => match flags_repr(fields.as_slice()) {
            Int::U8 => U8,
            Int::U16 => U16,
            Int::U32 => U32,
            Int::U64 => U64,
            Int::U128 => U128,
        },
    }
}

/// Walks on from what the frontier has met, and gathers what each
/// definition needs that the walk reaches.
fn reached_info(typedefs: &TypeDefArena, frontier: Frontier) -> (bits: u32)
    requires
        arena_resolved(typedefs@),
        frontier.wf(),
        frontier.seen.len() == typedefs.len(),
        forall|id: nat| frontier.met(id) ==> frontier.waits(id),
    ensures
        bits == reached_bits(typedefs@, frontier.met_set(), typedefs.len() as nat),
{
    let ghost roots = frontier.met_set();
    let seen = explore(typedefs, frontier);
    let mut bits: u32 = 0;
    let mut i: usize = 0;
    while i < typedefs.len()
        invariant
            i <= typedefs.len(),
            arena_resolved(typedefs@),
            seen.len() == typedefs.len(),
            forall|id: nat| id < typedefs.len() ==> (seen[id as int] <==> reachable(typedefs@, roots, id)),
            bits == reached_bits(typedefs@, roots, i as nat),
        decreases typedefs.len() - i,
    {
        assert(typedefs[i as int].kind.resolved(typedefs.len() as nat));
        let own = if seen[i] {
            own_typedef_info(&typedefs[i].kind)
        } else {
            0
        };
        assert(seen[i as int] <==> reachable(typedefs@, roots, i as nat));
        bits = bits | own;
        i += 1;
    }
    bits
}

impl SerdeUtils {
    /// What a script needs that calls the functions: for every parameter
    /// that something is written, for every result that something is read,
    /// what each of their types needs, and what every type definition needs
    /// that they lead to. That is what the functions need one by one, and
    /// the helper of a codec in a direction is selected where something
    /// travels in that direction and a type in a signature, or in a
    /// definition that the signatures lead to, uses the codec.
    pub fn collect_from_functions(typedefs: &TypeDefArena, functions: &[Function]) -> (info: SerdeUtils)
        requires
            arena_resolved(typedefs@),
            functions_resolved(functions@, typedefs.len() as nat),
        ensures
            info.bits == capabilities(typedefs@, functions@),
            info.bits == or_all(
                functions@.map_values(|f: Function| function_capabilities(typedefs@, f)),
            ),
            forall|direction: Direction, codec: Codec|
                (#[trigger] info.selected().contains(Snippet::Codec(direction, codec))) <==> travels(
                    functions@,
                    direction,
                ) && needed(typedefs@, functions@, codec),
    {
        let own = functions_info(functions);
        let mut frontier = Frontier::new(typedefs.len());
        frontier.mark_functions(functions);
        proof {
            assert forall|id: nat| functions_mention(functions@, id) implies id < typedefs.len() by {
                crate::reach::lemma_functions_mention_below(functions@, typedefs.len() as nat, id);
            }
            assert(frontier.met_set() == signature_roots(functions@));
        }
        let reached = reached_info(typedefs, frontier);
        let info = SerdeUtils { bits: own | reached };
        proof {
            lemma_capabilities_by_type(typedefs@, functions@);
            assert forall|direction: Direction, codec: Codec|
                (#[trigger] info.selected().contains(Snippet::Codec(direction, codec))) <==> travels(
                    functions@,
                    direction,
                ) && needed(typedefs@, functions@, codec) by {
                lemma_helper_selected_where_needed(typedefs@, functions@, direction, codec);
            }
        }
        info
    }

    /// What a value of the defined type needs, with all that its body leads
    /// to.
    pub fn collect_typedef_info(typedefs: &TypeDefArena, id: TypeDefId) -> (info: SerdeUtils)
        requires
            arena_resolved(typedefs@),
            id < typedefs.len(),
        ensures
            info.bits == typedef_capabilities(typedefs@, id as nat),
    {
        let mut frontier = Frontier::new(typedefs.len());
        frontier.mark(id);
        assert(frontier.met_set() == set![id as nat]);
        SerdeUtils { bits: reached_info(typedefs, frontier) }
    }

    /// What a value of the type needs, with all that it leads to.
    pub fn collect_type_info(typedefs: &TypeDefArena, ty: &Type) -> (info: SerdeUtils)
        requires
            arena_resolved(typedefs@),
            ty.resolved(typedefs.len() as nat),
        ensures
            info.bits == type_capabilities(typedefs@, *ty),
    {
        let own = own_type_info(ty);
        let mut frontier = Frontier::new(typedefs.len());
        frontier.mark_type(ty);
        proof {
            assert forall|id: nat| type_mentions(*ty, id) implies id < typedefs.len() by {
                crate::reach::lemma_type_mentions_below(*ty, typedefs.len() as nat, id);
            }
            assert(frontier.met_set() == type_roots(*ty));
        }
        let reached = reached_info(typedefs, frontier);
        SerdeUtils { bits: own | reached }
    }
}

} // verus!
