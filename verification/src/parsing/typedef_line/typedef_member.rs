//! The closed vocabulary of typedef member keywords, with a fixed
//! longest-first trial order so that a prefix keyword (`int`) can never
//! shadow a longer one (`int32`).

use vstd::prelude::*;

use crate::types::nested::{Nested, NestedView};
use crate::util::{has_at, skip_while, space_pred, trim_start_spec, trim_start_str};

verus! {

/// The member keywords a typedef body can use.
#[derive(Debug, PartialEq, Eq, Structural, Clone, Copy)]
pub enum TypedefMember {
    Char,
    Byte,
    UChar,
    UByte,
    Short,
    Int16,
    Ushort,
    UInt16,
    Word,
    Int,
    Int32,
    Long,
    Uint,
    UnInt32,
    ULong,
    Dword,
    Int64,
    Quad,
    UInt64,
    UQuad,
    Float,
    Double,
    HFloat,
    DOSDate,
    DOSTime,
    FileTime,
    OLETime,
    TimeT,
    Time64T,
    String,
    WCharT,
    WString,
    GUID,
    Opcode,
    Struct,
    Unsigned,
    Enum,
}

/// The display text of each member keyword.
pub open spec fn member_text(m: TypedefMember) -> Seq<char> {
    match m {
        TypedefMember::Char => seq!['c', 'h', 'a', 'r'],
        TypedefMember::Byte => seq!['b', 'y', 't', 'e'],
        TypedefMember::UChar => seq!['u', 'c', 'h', 'a', 'r'],
        TypedefMember::UByte => seq!['u', 'b', 'y', 't', 'e'],
        TypedefMember::Short => seq!['s', 'h', 'o', 'r', 't'],
        TypedefMember::Int16 => seq!['i', 'n', 't', '1', '6'],
        TypedefMember::Ushort => seq!['u', 's', 'h', 'o', 'r', 't'],
        TypedefMember::UInt16 => seq!['u', 'i', 'n', 't', '1', '6'],
        TypedefMember::Word => seq!['w', 'o', 'r', 'd'],
        TypedefMember::Int => seq!['i', 'n', 't'],
        TypedefMember::Int32 => seq!['i', 'n', 't', '3', '2'],
        TypedefMember::Long => seq!['l', 'o', 'n', 'g'],
        TypedefMember::Uint => seq!['u', 'i', 'n', 't'],
        TypedefMember::UnInt32 => seq!['u', 'i', 'n', 't', '3', '2'],
        TypedefMember::ULong => seq!['u', 'l', 'o', 'n', 'g'],
        TypedefMember::Dword => seq!['d', 'w', 'o', 'r', 'd'],
        TypedefMember::Int64 => seq!['i', 'n', 't', '6', '4'],
        TypedefMember::Quad => seq!['q', 'u', 'a', 'd'],
        TypedefMember::UInt64 => seq!['u', 'i', 'n', 't', '6', '4'],
        TypedefMember::UQuad => seq!['u', 'q', 'u', 'a', 'd'],
        TypedefMember::Float => seq!['f', 'l', 'o', 'a', 't'],
        TypedefMember::Double => seq!['d', 'o', 'u', 'b', 'l', 'e'],
        TypedefMember::HFloat => seq!['h', 'f', 'l', 'o', 'a', 't'],
        TypedefMember::DOSDate => seq!['d', 'o', 's', 'd', 'a', 't', 'e'],
        TypedefMember::DOSTime => seq!['d', 'o', 's', 't', 'i', 'm', 'e'],
        TypedefMember::FileTime => seq!['f', 'i', 'l', 'e', 't', 'i', 'm', 'e'],
        TypedefMember::OLETime => seq!['o', 'l', 'e', 't', 'i', 'm', 'e'],
        TypedefMember::TimeT => seq!['t', 'i', 'm', 'e', 't'],
        TypedefMember::Time64T => seq!['t', 'i', 'm', 'e', '6', '4', 't'],
        TypedefMember::String => seq!['s', 't', 'r', 'i', 'n', 'g'],
        TypedefMember::WCharT => seq!['w', 'c', 'h', 'a', 'r', '_', 't'],
        TypedefMember::WString => seq!['w', 's', 't', 'r', 'i', 'n', 'g'],
        TypedefMember::GUID => seq!['g', 'u', 'i', 'd'],
        TypedefMember::Opcode => seq!['o', 'p', 'c', 'o', 'd', 'e'],
        TypedefMember::Struct => seq!['s', 't', 'r', 'u', 'c', 't'],
        TypedefMember::Unsigned => seq!['u', 'n', 's', 'i', 'g', 'n', 'e', 'd'],
        TypedefMember::Enum => seq!['e', 'n', 'u', 'm'],
    }
}

/// All member keywords, in declaration order.
pub open spec fn spec_members() -> Seq<TypedefMember> {
    seq![
        TypedefMember::Char,
        TypedefMember::Byte,
        TypedefMember::UChar,
        TypedefMember::UByte,
        TypedefMember::Short,
        TypedefMember::Int16,
        TypedefMember::Ushort,
        TypedefMember::UInt16,
        TypedefMember::Word,
        TypedefMember::Int,
        TypedefMember::Int32,
        TypedefMember::Long,
        TypedefMember::Uint,
        TypedefMember::UnInt32,
        TypedefMember::ULong,
        TypedefMember::Dword,
        TypedefMember::Int64,
        TypedefMember::Quad,
        TypedefMember::UInt64,
        TypedefMember::UQuad,
        TypedefMember::Float,
        TypedefMember::Double,
        TypedefMember::HFloat,
        TypedefMember::DOSDate,
        TypedefMember::DOSTime,
        TypedefMember::FileTime,
        TypedefMember::OLETime,
        TypedefMember::TimeT,
        TypedefMember::Time64T,
        TypedefMember::String,
        TypedefMember::WCharT,
        TypedefMember::WString,
        TypedefMember::GUID,
        TypedefMember::Opcode,
        TypedefMember::Struct,
        TypedefMember::Unsigned,
        TypedefMember::Enum,
    ]
}

/// The keywords in the order the parser tries them: longest first, ties in
/// declaration order.
pub open spec fn member_trial_order() -> Seq<TypedefMember> {
    seq![
        TypedefMember::FileTime,
        TypedefMember::Unsigned,
        TypedefMember::DOSDate,
        TypedefMember::DOSTime,
        TypedefMember::OLETime,
        TypedefMember::Time64T,
        TypedefMember::WCharT,
        TypedefMember::WString,
        TypedefMember::Ushort,
        TypedefMember::UInt16,
        TypedefMember::UnInt32,
        TypedefMember::UInt64,
        TypedefMember::Double,
        TypedefMember::HFloat,
        TypedefMember::String,
        TypedefMember::Opcode,
        TypedefMember::Struct,
        TypedefMember::UChar,
        TypedefMember::UByte,
        TypedefMember::Short,
        TypedefMember::Int16,
        TypedefMember::Int32,
        TypedefMember::ULong,
        TypedefMember::Dword,
        TypedefMember::Int64,
        TypedefMember::UQuad,
        TypedefMember::Float,
        TypedefMember::TimeT,
        TypedefMember::Char,
        TypedefMember::Byte,
        TypedefMember::Word,
        TypedefMember::Long,
        TypedefMember::Uint,
        TypedefMember::Quad,
        TypedefMember::GUID,
        TypedefMember::Enum,
        TypedefMember::Int,
    ]
}

/// First keyword of the trial order whose text is a prefix of `s`, searching
/// from trial index `j`.
pub open spec fn match_member_from(s: Seq<char>, j: int) -> Option<int>
    decreases member_trial_order().len() - j,
{
    if j < 0 || j >= member_trial_order().len() {
        None
    } else if has_at(s, 0, member_text(member_trial_order()[j])) {
        Some(j)
    } else {
        match_member_from(s, j + 1)
    }
}

proof fn lemma_match_member_from_some(s: Seq<char>, j: int)
    ensures
        match match_member_from(s, j) {
            Some(k) => j <= k < member_trial_order().len() && has_at(
                s,
                0,
                member_text(member_trial_order()[k]),
            ),
            None => true,
        },
    decreases member_trial_order().len() - j,
{
    if 0 <= j && j < member_trial_order().len() && !has_at(
        s,
        0,
        member_text(member_trial_order()[j]),
    ) {
        lemma_match_member_from_some(s, j + 1);
    }
}

/// One member keyword at the start of `s`, longest match first.  Yields the
/// keyword text and the remainder with leading whitespace trimmed.
pub open spec fn spec_typedef_member(s: Seq<char>) -> Option<(Seq<char>, NestedView)> {
    match match_member_from(s, 0) {
        None => None,
        Some(j) => {
            let text = member_text(member_trial_order()[j]);
            Some(
                (
                    trim_start_spec(s.subrange(text.len() as int, s.len() as int)),
                    NestedView::Text(text),
                ),
            )
        },
    }
}

impl TypedefMember {
    /// The keyword's display text.
    pub fn to_str(&self) -> (r: &'static str)
        ensures
            r@ == member_text(*self),
    {
        match self {
            Self::Char => {
                proof {
                    reveal_strlit("char");
                    assert("char"@ =~= member_text(TypedefMember::Char));
                }
                "char"
            },
            Self::Byte => {
                proof {
                    reveal_strlit("byte");
                    assert("byte"@ =~= member_text(TypedefMember::Byte));
                }
                "byte"
            },
            Self::UChar => {
                proof {
                    reveal_strlit("uchar");
                    assert("uchar"@ =~= member_text(TypedefMember::UChar));
                }
                "uchar"
            },
            Self::UByte => {
                proof {
                    reveal_strlit("ubyte");
                    assert("ubyte"@ =~= member_text(TypedefMember::UByte));
                }
                "ubyte"
            },
            Self::Short => {
                proof {
                    reveal_strlit("short");
                    assert("short"@ =~= member_text(TypedefMember::Short));
                }
                "short"
            },
            Self::Int16 => {
                proof {
                    reveal_strlit("int16");
                    assert("int16"@ =~= member_text(TypedefMember::Int16));
                }
                "int16"
            },
            Self::Ushort => {
                proof {
                    reveal_strlit("ushort");
                    assert("ushort"@ =~= member_text(TypedefMember::Ushort));
                }
                "ushort"
            },
            Self::UInt16 => {
                proof {
                    reveal_strlit("uint16");
                    assert("uint16"@ =~= member_text(TypedefMember::UInt16));
                }
                "uint16"
            },
            Self::Word => {
                proof {
                    reveal_strlit("word");
                    assert("word"@ =~= member_text(TypedefMember::Word));
                }
                "word"
            },
            Self::Int => {
                proof {
                    reveal_strlit("int");
                    assert("int"@ =~= member_text(TypedefMember::Int));
                }
                "int"
            },
            Self::Int32 => {
                proof {
                    reveal_strlit("int32");
                    assert("int32"@ =~= member_text(TypedefMember::Int32));
                }
                "int32"
            },
            Self::Long => {
                proof {
                    reveal_strlit("long");
                    assert("long"@ =~= member_text(TypedefMember::Long));
                }
                "long"
            },
            Self::Uint => {
                proof {
                    reveal_strlit("uint");
                    assert("uint"@ =~= member_text(TypedefMember::Uint));
                }
                "uint"
            },
            Self::UnInt32 => {
                proof {
                    reveal_strlit("uint32");
                    assert("uint32"@ =~= member_text(TypedefMember::UnInt32));
                }
                "uint32"
            },
            Self::ULong => {
                proof {
                    reveal_strlit("ulong");
                    assert("ulong"@ =~= member_text(TypedefMember::ULong));
                }
                "ulong"
            },
            Self::Dword => {
                proof {
                    reveal_strlit("dword");
                    assert("dword"@ =~= member_text(TypedefMember::Dword));
                }
                "dword"
            },
            Self::Int64 => {
                proof {
                    reveal_strlit("int64");
                    assert("int64"@ =~= member_text(TypedefMember::Int64));
                }
                "int64"
            },
            Self::Quad => {
                proof {
                    reveal_strlit("quad");
                    assert("quad"@ =~= member_text(TypedefMember::Quad));
                }
                "quad"
            },
            Self::UInt64 => {
                proof {
                    reveal_strlit("uint64");
                    assert("uint64"@ =~= member_text(TypedefMember::UInt64));
                }
                "uint64"
            },
            Self::UQuad => {
                proof {
                    reveal_strlit("uquad");
                    assert("uquad"@ =~= member_text(TypedefMember::UQuad));
                }
                "uquad"
            },
            Self::Float => {
                proof {
                    reveal_strlit("float");
                    assert("float"@ =~= member_text(TypedefMember::Float));
                }
                "float"
            },
            Self::Double => {
                proof {
                    reveal_strlit("double");
                    assert("double"@ =~= member_text(TypedefMember::Double));
                }
                "double"
            },
            Self::HFloat => {
                proof {
                    reveal_strlit("hfloat");
                    assert("hfloat"@ =~= member_text(TypedefMember::HFloat));
                }
                "hfloat"
            },
            Self::DOSDate => {
                proof {
                    reveal_strlit("dosdate");
                    assert("dosdate"@ =~= member_text(TypedefMember::DOSDate));
                }
                "dosdate"
            },
            Self::DOSTime => {
                proof {
                    reveal_strlit("dostime");
                    assert("dostime"@ =~= member_text(TypedefMember::DOSTime));
                }
                "dostime"
            },
            Self::FileTime => {
                proof {
                    reveal_strlit("filetime");
                    assert("filetime"@ =~= member_text(TypedefMember::FileTime));
                }
                "filetime"
            },
            Self::OLETime => {
                proof {
                    reveal_strlit("oletime");
                    assert("oletime"@ =~= member_text(TypedefMember::OLETime));
                }
                "oletime"
            },
            Self::TimeT => {
                proof {
                    reveal_strlit("timet");
                    assert("timet"@ =~= member_text(TypedefMember::TimeT));
                }
                "timet"
            },
            Self::Time64T => {
                proof {
                    reveal_strlit("time64t");
                    assert("time64t"@ =~= member_text(TypedefMember::Time64T));
                }
                "time64t"
            },
            Self::String => {
                proof {
                    reveal_strlit("string");
                    assert("string"@ =~= member_text(TypedefMember::String));
                }
                "string"
            },
            Self::WCharT => {
                proof {
                    reveal_strlit("wchar_t");
                    assert("wchar_t"@ =~= member_text(TypedefMember::WCharT));
                }
                "wchar_t"
            },
            Self::WString => {
                proof {
                    reveal_strlit("wstring");
                    assert("wstring"@ =~= member_text(TypedefMember::WString));
                }
                "wstring"
            },
            Self::GUID => {
                proof {
                    reveal_strlit("guid");
                    assert("guid"@ =~= member_text(TypedefMember::GUID));
                }
                "guid"
            },
            Self::Opcode => {
                proof {
                    reveal_strlit("opcode");
                    assert("opcode"@ =~= member_text(TypedefMember::Opcode));
                }
                "opcode"
            },
            Self::Struct => {
                proof {
                    reveal_strlit("struct");
                    assert("struct"@ =~= member_text(TypedefMember::Struct));
                }
                "struct"
            },
            Self::Unsigned => {
                proof {
                    reveal_strlit("unsigned");
                    assert("unsigned"@ =~= member_text(TypedefMember::Unsigned));
                }
                "unsigned"
            },
            Self::Enum => {
                proof {
                    reveal_strlit("enum");
                    assert("enum"@ =~= member_text(TypedefMember::Enum));
                }
                "enum"
            },
        }
    }

    /// Every member keyword, in declaration order.
    pub fn iterator() -> (r: Vec<TypedefMember>)
        ensures
            r@ == spec_members(),
    {
        let mut v: Vec<TypedefMember> = Vec::new();
        v.push(TypedefMember::Char);
        v.push(TypedefMember::Byte);
        v.push(TypedefMember::UChar);
        v.push(TypedefMember::UByte);
        v.push(TypedefMember::Short);
        v.push(TypedefMember::Int16);
        v.push(TypedefMember::Ushort);
        v.push(TypedefMember::UInt16);
        v.push(TypedefMember::Word);
        v.push(TypedefMember::Int);
        v.push(TypedefMember::Int32);
        v.push(TypedefMember::Long);
        v.push(TypedefMember::Uint);
        v.push(TypedefMember::UnInt32);
        v.push(TypedefMember::ULong);
        v.push(TypedefMember::Dword);
        v.push(TypedefMember::Int64);
        v.push(TypedefMember::Quad);
        v.push(TypedefMember::UInt64);
        v.push(TypedefMember::UQuad);
        v.push(TypedefMember::Float);
        v.push(TypedefMember::Double);
        v.push(TypedefMember::HFloat);
        v.push(TypedefMember::DOSDate);
        v.push(TypedefMember::DOSTime);
        v.push(TypedefMember::FileTime);
        v.push(TypedefMember::OLETime);
        v.push(TypedefMember::TimeT);
        v.push(TypedefMember::Time64T);
        v.push(TypedefMember::String);
        v.push(TypedefMember::WCharT);
        v.push(TypedefMember::WString);
        v.push(TypedefMember::GUID);
        v.push(TypedefMember::Opcode);
        v.push(TypedefMember::Struct);
        v.push(TypedefMember::Unsigned);
        v.push(TypedefMember::Enum);
        proof {
            assert(v@ =~= spec_members());
        }
        v
    }

    /// The keywords in the parser's trial order (longest first).
    pub fn trial_list() -> (r: Vec<TypedefMember>)
        ensures
            r@ == member_trial_order(),
    {
        let mut v: Vec<TypedefMember> = Vec::new();
        v.push(TypedefMember::FileTime);
        v.push(TypedefMember::Unsigned);
        v.push(TypedefMember::DOSDate);
        v.push(TypedefMember::DOSTime);
        v.push(TypedefMember::OLETime);
        v.push(TypedefMember::Time64T);
        v.push(TypedefMember::WCharT);
        v.push(TypedefMember::WString);
        v.push(TypedefMember::Ushort);
        v.push(TypedefMember::UInt16);
        v.push(TypedefMember::UnInt32);
        v.push(TypedefMember::UInt64);
        v.push(TypedefMember::Double);
        v.push(TypedefMember::HFloat);
        v.push(TypedefMember::String);
        v.push(TypedefMember::Opcode);
        v.push(TypedefMember::Struct);
        v.push(TypedefMember::UChar);
        v.push(TypedefMember::UByte);
        v.push(TypedefMember::Short);
        v.push(TypedefMember::Int16);
        v.push(TypedefMember::Int32);
        v.push(TypedefMember::ULong);
        v.push(TypedefMember::Dword);
        v.push(TypedefMember::Int64);
        v.push(TypedefMember::UQuad);
        v.push(TypedefMember::Float);
        v.push(TypedefMember::TimeT);
        v.push(TypedefMember::Char);
        v.push(TypedefMember::Byte);
        v.push(TypedefMember::Word);
        v.push(TypedefMember::Long);
        v.push(TypedefMember::Uint);
        v.push(TypedefMember::Quad);
        v.push(TypedefMember::GUID);
        v.push(TypedefMember::Enum);
        v.push(TypedefMember::Int);
        proof {
            assert(v@ =~= member_trial_order());
        }
        v
    }
}

/// Parse one member keyword, e.g. `unsigned int myInt;` yields `unsigned`
/// and the remainder `int myInt;`.
pub fn typedef_member<'a>(input: &'a str) -> (r: Option<(&'a str, Nested)>)
    ensures
        match r {
            Some((rest, v)) => spec_typedef_member(input@) == Some((rest@, v@)),
            None => spec_typedef_member(input@) is None,
        },
{
    let ghost s = input@;
    let members = TypedefMember::trial_list();
    let n = members.len();
    let len = input.unicode_len();
    let mut j: usize = 0;
    let mut found: Option<usize> = None;
    while j < n
        invariant_except_break
            found is None,
        invariant
            0 <= j <= n,
            n == member_trial_order().len(),
            members@ == member_trial_order(),
            input@ == s,
            match_member_from(s, 0) == match_member_from(s, j as int),
        ensures
            match found {
                Some(k) => match_member_from(s, 0) == Some(k as int) && k < n,
                None => match_member_from(s, 0) is None,
            },
        decreases n - j,
    {
        if crate::util::match_at(input, 0, members[j].to_str()) {
            found = Some(j);
            break ;
        }
        j = j + 1;
    }
    match found {
        None => None,
        Some(k) => {
            let text = members[k].to_str();
            let tlen = text.unicode_len();
            proof {
                lemma_match_member_from_some(s, 0);
            }
            let rest = trim_start_str(input.substring_char(tlen, len));
            Some((rest, Nested::Text(text.to_owned())))
        },
    }
}

} // verus!
